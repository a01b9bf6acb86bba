//! Verb-family AST nodes: [`Command`], [`Event`], and the parameter/result
//! types they share.
//!
//! Modelled after the `<command>`, `<event>`, `<parameter>`,
//! `<direct-parameter>`, and `<result>` elements defined in the sdef DTD.
//! Commands are script→object verbs; events are system→object notifications;
//! both share the same parameter/result vocabulary.

use vstd::prelude::*;

use crate::document::children;
use crate::error::Error;
use crate::events::{tag_attrs, EventView, XmlEvent};
use crate::metadata::{
    access_attr, access_attr_text, access_canonical, access_rel, access_slot, access_writable,
    lemma_access_allowed, push_access_attr, Access, AccessGroup, Cocoa, Documentation, Synonym,
    Xref,
};
use crate::typeref::TypeRef;
use crate::xmlmap::{
    at_most_one, attr_value, attribute, attrs_at, flag, flag_value, many, many_ok, many_rel,
    node_ok, one_ok, one_rel, opt_value, readable_children, req_value, required, text_of, FromXml,
};

use crate::emit::{
    attr_text, element_xml, flag_attr_text, flag_opt_attr_text, many_text, one_text,
    opt_attr_text, push_attr, push_flag_attr, push_flag_opt_attr, push_opt_attr, write_element,
    write_many, write_one, ToXml,
};
use crate::document::{content_end, kids_from};
use crate::readback::{
    all_writable, element_span, element_spelled, flag_opt_slot, flag_slot, keys_distinct,
    lemma_attrs_read_back, lemma_decode_append, lemma_decode_clean, lemma_decode_empty, lemma_element_tags,
    lemma_many_reads_back, lemma_named_extend, lemma_seq_assoc, lemma_starts_tagged, lemma_tagged_decode,
    many_span, many_spelled, many_starts, opt_seq, opt_slot, req_slot, tags_decode, ReadsBack,
};
use crate::xmlmap::named;
use crate::yorn::{lemma_flag_opt_reads_back, lemma_flag_reads_back};
use crate::readback::{
    all_canonical, lemma_closed_attribute_passes, lemma_many_pass_strict, lemma_tags_pass_strict,
    StrictSafe,
};
use crate::strict::{closed_rule, known_names, rw_values};

verus! {

/// A `<command>` — a verb the application supports via Apple Events,
/// invoked from a script.
#[derive(Debug, Clone, Hash, PartialEq, Eq)]
#[non_exhaustive]
pub struct Command {
    /// Human-readable command name (`name="…"`), e.g. `"export transactions"`.
    pub name: String,
    /// Eight-character Apple Event code (`code="…"`), e.g. `"MONYexpt"`.
    pub code: String,
    /// `id="…"` — optional unique identifier for cross-references via
    /// `<xref>` or `<responds-to>`.
    pub id: Option<String>,
    /// Optional human description (`description="…"`).
    pub description: Option<String>,
    /// `hidden="yes"` flag, defaults to `false`.
    pub hidden: bool,
    /// Optional `<cocoa>` implementation hint child.
    pub cocoa: Option<Cocoa>,
    /// Zero or more `<access-group>` entitlement children (since OS X 10.8).
    pub access_groups: Vec<AccessGroup>,
    /// Zero or more `<synonym>` children — alternate names/codes.
    pub synonyms: Vec<Synonym>,
    /// `<documentation>` child blocks.
    pub documentation: Vec<Documentation>,
    /// Optional `<direct-parameter>` (the un-named first argument).
    pub direct_parameter: Option<DirectParameter>,
    /// `<parameter>` children, in document order.
    pub parameters: Vec<Parameter>,
    /// Optional `<result>` element describing the command's return value.
    pub result: Option<CommandResult>,
    /// Zero or more `<xref>` cross-reference children (since OS X 10.5).
    pub xrefs: Vec<Xref>,
}

impl FromXml for Command {
    open spec fn xml_ok(evs: Seq<EventView>, i: int) -> bool {
        let a = tag_attrs(evs[i]);
        let ks = children(evs, i);
        &&& node_ok(evs, i)
        &&& req_value(a, "name"@) is Some
        &&& req_value(a, "code"@) is Some
        &&& attr_value(a, "id"@) is Ok
        &&& attr_value(a, "description"@) is Ok
        &&& flag_value(a, "hidden"@) is Ok
        &&& one_ok::<Cocoa>(evs, ks, "cocoa"@)
        &&& many_ok::<AccessGroup>(evs, ks, "access-group"@)
        &&& many_ok::<Synonym>(evs, ks, "synonym"@)
        &&& many_ok::<Documentation>(evs, ks, "documentation"@)
        &&& one_ok::<DirectParameter>(evs, ks, "direct-parameter"@)
        &&& many_ok::<Parameter>(evs, ks, "parameter"@)
        &&& one_ok::<CommandResult>(evs, ks, "result"@)
        &&& many_ok::<Xref>(evs, ks, "xref"@)
    }

    open spec fn xml_rel(self, evs: Seq<EventView>, i: int) -> bool {
        let a = tag_attrs(evs[i]);
        let ks = children(evs, i);
        &&& req_value(a, "name"@) == Some(self.name@)
        &&& req_value(a, "code"@) == Some(self.code@)
        &&& text_of(self.id) == opt_value(a, "id"@)
        &&& text_of(self.description) == opt_value(a, "description"@)
        &&& flag_value(a, "hidden"@) == Ok::<bool, ()>(self.hidden)
        &&& one_rel(self.cocoa, evs, ks, "cocoa"@)
        &&& many_rel(self.access_groups, evs, ks, "access-group"@)
        &&& many_rel(self.synonyms, evs, ks, "synonym"@)
        &&& many_rel(self.documentation, evs, ks, "documentation"@)
        &&& one_rel(self.direct_parameter, evs, ks, "direct-parameter"@)
        &&& many_rel(self.parameters, evs, ks, "parameter"@)
        &&& one_rel(self.result, evs, ks, "result"@)
        &&& many_rel(self.xrefs, evs, ks, "xref"@)
    }

    fn from_xml(evs: &Vec<XmlEvent>, i: usize) -> (r: Result<Self, Error>) {
        let ks = readable_children(evs, i)?;
        let a = attrs_at(evs, i);
        let name = required(a, "name")?;
        let code = required(a, "code")?;
        let id = attribute(a, "id")?;
        let description = attribute(a, "description")?;
        let hidden = flag(a, "hidden")?;
        let cocoa = at_most_one::<Cocoa>(evs, &ks, "cocoa")?;
        let access_groups = many::<AccessGroup>(evs, &ks, "access-group")?;
        let synonyms = many::<Synonym>(evs, &ks, "synonym")?;
        let documentation = many::<Documentation>(evs, &ks, "documentation")?;
        let direct_parameter = at_most_one::<DirectParameter>(evs, &ks, "direct-parameter")?;
        let parameters = many::<Parameter>(evs, &ks, "parameter")?;
        let result = at_most_one::<CommandResult>(evs, &ks, "result")?;
        let xrefs = many::<Xref>(evs, &ks, "xref")?;
        Ok(Command { name, code, id, description, hidden, cocoa, access_groups, synonyms, documentation, direct_parameter, parameters, result, xrefs })
    }
}

impl ToXml for Command {
    open spec fn xml_text(self, tag: Seq<char>) -> Seq<char> {
        element_xml(
            tag,
            attr_text("name"@, self.name@) +
                attr_text("code"@, self.code@) +
                opt_attr_text("id"@, self.id) +
                opt_attr_text("description"@, self.description) +
                flag_attr_text("hidden"@, self.hidden),
            one_text(self.cocoa, "cocoa"@) +
                many_text(self.access_groups@, "access-group"@) +
                many_text(self.synonyms@, "synonym"@) +
                many_text(self.documentation@, "documentation"@) +
                one_text(self.direct_parameter, "direct-parameter"@) +
                many_text(self.parameters@, "parameter"@) +
                one_text(self.result, "result"@) +
                many_text(self.xrefs@, "xref"@),
        )
    }

    fn write_xml(&self, tag: &str, out: &mut String) {
        let mut attrs = String::new();
        push_attr(&mut attrs, "name", self.name.as_str());
        assert(attrs@ =~= attr_text("name"@, self.name@));
        push_attr(&mut attrs, "code", self.code.as_str());
        push_opt_attr(&mut attrs, "id", &self.id);
        push_opt_attr(&mut attrs, "description", &self.description);
        push_flag_attr(&mut attrs, "hidden", self.hidden);
        let mut body = String::new();
        write_one(&self.cocoa, "cocoa", &mut body);
        assert(body@ =~= one_text(self.cocoa, "cocoa"@));
        write_many(&self.access_groups, "access-group", &mut body);
        write_many(&self.synonyms, "synonym", &mut body);
        write_many(&self.documentation, "documentation", &mut body);
        write_one(&self.direct_parameter, "direct-parameter", &mut body);
        write_many(&self.parameters, "parameter", &mut body);
        write_one(&self.result, "result", &mut body);
        write_many(&self.xrefs, "xref", &mut body);
        write_element(out, tag, &attrs, &body);
    }
}

/// The attribute slots written for a [`Command`].
pub open spec fn command_slots(x: Command) -> Seq<(Seq<char>, Option<Seq<char>>)> {
    seq![
        req_slot("name"@, x.name@),
        req_slot("code"@, x.code@),
        opt_slot("id"@, x.id),
        opt_slot("description"@, x.description),
        flag_slot("hidden"@, x.hidden),
    ]
}

/// The attribute keys of a [`Command`] are distinct, and so are the names of
/// its child elements.
proof fn lemma_command_names(x: Command)
    ensures
        keys_distinct(command_slots(x)),
        "cocoa"@ != "access-group"@,
        "cocoa"@ != "synonym"@,
        "cocoa"@ != "documentation"@,
        "cocoa"@ != "direct-parameter"@,
        "cocoa"@ != "parameter"@,
        "cocoa"@ != "result"@,
        "cocoa"@ != "xref"@,
        "access-group"@ != "synonym"@,
        "access-group"@ != "documentation"@,
        "access-group"@ != "direct-parameter"@,
        "access-group"@ != "parameter"@,
        "access-group"@ != "result"@,
        "access-group"@ != "xref"@,
        "synonym"@ != "documentation"@,
        "synonym"@ != "direct-parameter"@,
        "synonym"@ != "parameter"@,
        "synonym"@ != "result"@,
        "synonym"@ != "xref"@,
        "documentation"@ != "direct-parameter"@,
        "documentation"@ != "parameter"@,
        "documentation"@ != "result"@,
        "documentation"@ != "xref"@,
        "direct-parameter"@ != "parameter"@,
        "direct-parameter"@ != "result"@,
        "direct-parameter"@ != "xref"@,
        "parameter"@ != "result"@,
        "parameter"@ != "xref"@,
        "result"@ != "xref"@,
{
    reveal_strlit("code");
    reveal_strlit("description");
    reveal_strlit("hidden");
    reveal_strlit("id");
    reveal_strlit("name");
    assert("name"@[0] != "code"@[0]);
    assert("name"@.len() != "id"@.len());
    assert("name"@.len() != "description"@.len());
    assert("name"@.len() != "hidden"@.len());
    assert("code"@.len() != "id"@.len());
    assert("code"@.len() != "description"@.len());
    assert("code"@.len() != "hidden"@.len());
    assert("id"@.len() != "description"@.len());
    assert("id"@.len() != "hidden"@.len());
    assert("description"@.len() != "hidden"@.len());
    reveal_strlit("access-group");
    reveal_strlit("cocoa");
    reveal_strlit("direct-parameter");
    reveal_strlit("documentation");
    reveal_strlit("parameter");
    reveal_strlit("result");
    reveal_strlit("synonym");
    reveal_strlit("xref");
    assert("cocoa"@.len() != "access-group"@.len());
    assert("cocoa"@.len() != "synonym"@.len());
    assert("cocoa"@.len() != "documentation"@.len());
    assert("cocoa"@.len() != "direct-parameter"@.len());
    assert("cocoa"@.len() != "parameter"@.len());
    assert("cocoa"@.len() != "result"@.len());
    assert("cocoa"@.len() != "xref"@.len());
    assert("access-group"@.len() != "synonym"@.len());
    assert("access-group"@.len() != "documentation"@.len());
    assert("access-group"@.len() != "direct-parameter"@.len());
    assert("access-group"@.len() != "parameter"@.len());
    assert("access-group"@.len() != "result"@.len());
    assert("access-group"@.len() != "xref"@.len());
    assert("synonym"@.len() != "documentation"@.len());
    assert("synonym"@.len() != "direct-parameter"@.len());
    assert("synonym"@.len() != "parameter"@.len());
    assert("synonym"@.len() != "result"@.len());
    assert("synonym"@.len() != "xref"@.len());
    assert("documentation"@.len() != "direct-parameter"@.len());
    assert("documentation"@.len() != "parameter"@.len());
    assert("documentation"@.len() != "result"@.len());
    assert("documentation"@.len() != "xref"@.len());
    assert("direct-parameter"@.len() != "parameter"@.len());
    assert("direct-parameter"@.len() != "result"@.len());
    assert("direct-parameter"@.len() != "xref"@.len());
    assert("parameter"@.len() != "result"@.len());
    assert("parameter"@.len() != "xref"@.len());
    assert("result"@.len() != "xref"@.len());
}

impl ReadsBack for Command {
    open spec fn event_span(self) -> int {
        element_span(many_span(opt_seq(self.cocoa)) + many_span(self.access_groups@) + many_span(self.synonyms@) + many_span(self.documentation@) + many_span(opt_seq(self.direct_parameter)) + many_span(self.parameters@) + many_span(opt_seq(self.result)) + many_span(self.xrefs@))
    }

    open spec fn spelled(self, evs: Seq<EventView>, i: int, tag: Seq<char>) -> bool {
        &&& element_spelled(evs, i, tag, command_slots(self), many_span(opt_seq(self.cocoa)) + many_span(self.access_groups@) + many_span(self.synonyms@) + many_span(self.documentation@) + many_span(opt_seq(self.direct_parameter)) + many_span(self.parameters@) + many_span(opt_seq(self.result)) + many_span(self.xrefs@))
        &&& many_spelled(opt_seq(self.cocoa), evs, i + 1, "cocoa"@)
        &&& many_spelled(self.access_groups@, evs, i + 1 + many_span(opt_seq(self.cocoa)), "access-group"@)
        &&& many_spelled(self.synonyms@, evs, i + 1 + many_span(opt_seq(self.cocoa)) + many_span(self.access_groups@), "synonym"@)
        &&& many_spelled(self.documentation@, evs, i + 1 + many_span(opt_seq(self.cocoa)) + many_span(self.access_groups@) + many_span(self.synonyms@), "documentation"@)
        &&& many_spelled(opt_seq(self.direct_parameter), evs, i + 1 + many_span(opt_seq(self.cocoa)) + many_span(self.access_groups@) + many_span(self.synonyms@) + many_span(self.documentation@), "direct-parameter"@)
        &&& many_spelled(self.parameters@, evs, i + 1 + many_span(opt_seq(self.cocoa)) + many_span(self.access_groups@) + many_span(self.synonyms@) + many_span(self.documentation@) + many_span(opt_seq(self.direct_parameter)), "parameter"@)
        &&& many_spelled(opt_seq(self.result), evs, i + 1 + many_span(opt_seq(self.cocoa)) + many_span(self.access_groups@) + many_span(self.synonyms@) + many_span(self.documentation@) + many_span(opt_seq(self.direct_parameter)) + many_span(self.parameters@), "result"@)
        &&& many_spelled(self.xrefs@, evs, i + 1 + many_span(opt_seq(self.cocoa)) + many_span(self.access_groups@) + many_span(self.synonyms@) + many_span(self.documentation@) + many_span(opt_seq(self.direct_parameter)) + many_span(self.parameters@) + many_span(opt_seq(self.result)), "xref"@)
    }

    open spec fn writable(self) -> bool {
        &&& all_writable(opt_seq(self.cocoa))
        &&& all_writable(self.access_groups@)
        &&& all_writable(self.synonyms@)
        &&& all_writable(self.documentation@)
        &&& all_writable(opt_seq(self.direct_parameter))
        &&& all_writable(self.parameters@)
        &&& all_writable(opt_seq(self.result))
        &&& all_writable(self.xrefs@)
    }

    #[verifier::spinoff_prover]
    #[verifier::rlimit(100)]
    proof fn lemma_reads_back(self, evs: Seq<EventView>, i: int, tag: Seq<char>) {
        let slots = command_slots(self);
        lemma_command_names(self);
        let p0 = i + 1;
        let k0: Seq<int> = seq![];
        lemma_decode_empty(evs);
        assert(kids_from(evs, p0) =~= k0 + kids_from(evs, p0));
        let g0 = opt_seq(self.cocoa);
        lemma_many_reads_back(g0, evs, p0, "cocoa"@);
        let s0 = many_starts(g0, p0);
        let p1 = p0 + many_span(g0);
        let k1 = k0 + s0;
        lemma_seq_assoc(k0, s0, kids_from(evs, p1));
        lemma_starts_tagged(g0, evs, p0, "cocoa"@);
        lemma_tagged_decode(evs, s0, "cocoa"@);
        lemma_decode_append(evs, k0, s0);
        let g1 = self.access_groups@;
        lemma_many_reads_back(g1, evs, p1, "access-group"@);
        let s1 = many_starts(g1, p1);
        let p2 = p1 + many_span(g1);
        let k2 = k1 + s1;
        lemma_seq_assoc(k1, s1, kids_from(evs, p2));
        lemma_starts_tagged(g1, evs, p1, "access-group"@);
        lemma_tagged_decode(evs, s1, "access-group"@);
        lemma_decode_append(evs, k1, s1);
        let g2 = self.synonyms@;
        lemma_many_reads_back(g2, evs, p2, "synonym"@);
        let s2 = many_starts(g2, p2);
        let p3 = p2 + many_span(g2);
        let k3 = k2 + s2;
        lemma_seq_assoc(k2, s2, kids_from(evs, p3));
        lemma_starts_tagged(g2, evs, p2, "synonym"@);
        lemma_tagged_decode(evs, s2, "synonym"@);
        lemma_decode_append(evs, k2, s2);
        let g3 = self.documentation@;
        lemma_many_reads_back(g3, evs, p3, "documentation"@);
        let s3 = many_starts(g3, p3);
        let p4 = p3 + many_span(g3);
        let k4 = k3 + s3;
        lemma_seq_assoc(k3, s3, kids_from(evs, p4));
        lemma_starts_tagged(g3, evs, p3, "documentation"@);
        lemma_tagged_decode(evs, s3, "documentation"@);
        lemma_decode_append(evs, k3, s3);
        let g4 = opt_seq(self.direct_parameter);
        lemma_many_reads_back(g4, evs, p4, "direct-parameter"@);
        let s4 = many_starts(g4, p4);
        let p5 = p4 + many_span(g4);
        let k5 = k4 + s4;
        lemma_seq_assoc(k4, s4, kids_from(evs, p5));
        lemma_starts_tagged(g4, evs, p4, "direct-parameter"@);
        lemma_tagged_decode(evs, s4, "direct-parameter"@);
        lemma_decode_append(evs, k4, s4);
        let g5 = self.parameters@;
        lemma_many_reads_back(g5, evs, p5, "parameter"@);
        let s5 = many_starts(g5, p5);
        let p6 = p5 + many_span(g5);
        let k6 = k5 + s5;
        lemma_seq_assoc(k5, s5, kids_from(evs, p6));
        lemma_starts_tagged(g5, evs, p5, "parameter"@);
        lemma_tagged_decode(evs, s5, "parameter"@);
        lemma_decode_append(evs, k5, s5);
        let g6 = opt_seq(self.result);
        lemma_many_reads_back(g6, evs, p6, "result"@);
        let s6 = many_starts(g6, p6);
        let p7 = p6 + many_span(g6);
        let k7 = k6 + s6;
        lemma_seq_assoc(k6, s6, kids_from(evs, p7));
        lemma_starts_tagged(g6, evs, p6, "result"@);
        lemma_tagged_decode(evs, s6, "result"@);
        lemma_decode_append(evs, k6, s6);
        let g7 = self.xrefs@;
        lemma_many_reads_back(g7, evs, p7, "xref"@);
        let s7 = many_starts(g7, p7);
        let p8 = p7 + many_span(g7);
        let k8 = k7 + s7;
        lemma_seq_assoc(k7, s7, kids_from(evs, p8));
        lemma_starts_tagged(g7, evs, p7, "xref"@);
        lemma_tagged_decode(evs, s7, "xref"@);
        lemma_decode_append(evs, k7, s7);
        let n = p8 - p0;
        assert(forall|close: Seq<u8>| #![trigger content_end(evs, p0, close)] content_end(evs, p0, close) == content_end(evs, p0 + n, close));
        lemma_element_tags(evs, i, tag, slots, n, k8);
        lemma_named_extend(evs, k0, s0, "cocoa"@, "cocoa"@);
        lemma_named_extend(evs, k1, s1, "access-group"@, "cocoa"@);
        lemma_named_extend(evs, k2, s2, "synonym"@, "cocoa"@);
        lemma_named_extend(evs, k3, s3, "documentation"@, "cocoa"@);
        lemma_named_extend(evs, k4, s4, "direct-parameter"@, "cocoa"@);
        lemma_named_extend(evs, k5, s5, "parameter"@, "cocoa"@);
        lemma_named_extend(evs, k6, s6, "result"@, "cocoa"@);
        lemma_named_extend(evs, k7, s7, "xref"@, "cocoa"@);
        assert(k0 + s0 =~= s0);
        lemma_named_extend(evs, k0, s0, "cocoa"@, "access-group"@);
        lemma_named_extend(evs, k1, s1, "access-group"@, "access-group"@);
        lemma_named_extend(evs, k2, s2, "synonym"@, "access-group"@);
        lemma_named_extend(evs, k3, s3, "documentation"@, "access-group"@);
        lemma_named_extend(evs, k4, s4, "direct-parameter"@, "access-group"@);
        lemma_named_extend(evs, k5, s5, "parameter"@, "access-group"@);
        lemma_named_extend(evs, k6, s6, "result"@, "access-group"@);
        lemma_named_extend(evs, k7, s7, "xref"@, "access-group"@);
        assert(k0 + s1 =~= s1);
        lemma_named_extend(evs, k0, s0, "cocoa"@, "synonym"@);
        lemma_named_extend(evs, k1, s1, "access-group"@, "synonym"@);
        lemma_named_extend(evs, k2, s2, "synonym"@, "synonym"@);
        lemma_named_extend(evs, k3, s3, "documentation"@, "synonym"@);
        lemma_named_extend(evs, k4, s4, "direct-parameter"@, "synonym"@);
        lemma_named_extend(evs, k5, s5, "parameter"@, "synonym"@);
        lemma_named_extend(evs, k6, s6, "result"@, "synonym"@);
        lemma_named_extend(evs, k7, s7, "xref"@, "synonym"@);
        assert(k0 + s2 =~= s2);
        lemma_named_extend(evs, k0, s0, "cocoa"@, "documentation"@);
        lemma_named_extend(evs, k1, s1, "access-group"@, "documentation"@);
        lemma_named_extend(evs, k2, s2, "synonym"@, "documentation"@);
        lemma_named_extend(evs, k3, s3, "documentation"@, "documentation"@);
        lemma_named_extend(evs, k4, s4, "direct-parameter"@, "documentation"@);
        lemma_named_extend(evs, k5, s5, "parameter"@, "documentation"@);
        lemma_named_extend(evs, k6, s6, "result"@, "documentation"@);
        lemma_named_extend(evs, k7, s7, "xref"@, "documentation"@);
        assert(k0 + s3 =~= s3);
        lemma_named_extend(evs, k0, s0, "cocoa"@, "direct-parameter"@);
        lemma_named_extend(evs, k1, s1, "access-group"@, "direct-parameter"@);
        lemma_named_extend(evs, k2, s2, "synonym"@, "direct-parameter"@);
        lemma_named_extend(evs, k3, s3, "documentation"@, "direct-parameter"@);
        lemma_named_extend(evs, k4, s4, "direct-parameter"@, "direct-parameter"@);
        lemma_named_extend(evs, k5, s5, "parameter"@, "direct-parameter"@);
        lemma_named_extend(evs, k6, s6, "result"@, "direct-parameter"@);
        lemma_named_extend(evs, k7, s7, "xref"@, "direct-parameter"@);
        assert(k0 + s4 =~= s4);
        lemma_named_extend(evs, k0, s0, "cocoa"@, "parameter"@);
        lemma_named_extend(evs, k1, s1, "access-group"@, "parameter"@);
        lemma_named_extend(evs, k2, s2, "synonym"@, "parameter"@);
        lemma_named_extend(evs, k3, s3, "documentation"@, "parameter"@);
        lemma_named_extend(evs, k4, s4, "direct-parameter"@, "parameter"@);
        lemma_named_extend(evs, k5, s5, "parameter"@, "parameter"@);
        lemma_named_extend(evs, k6, s6, "result"@, "parameter"@);
        lemma_named_extend(evs, k7, s7, "xref"@, "parameter"@);
        assert(k0 + s5 =~= s5);
        lemma_named_extend(evs, k0, s0, "cocoa"@, "result"@);
        lemma_named_extend(evs, k1, s1, "access-group"@, "result"@);
        lemma_named_extend(evs, k2, s2, "synonym"@, "result"@);
        lemma_named_extend(evs, k3, s3, "documentation"@, "result"@);
        lemma_named_extend(evs, k4, s4, "direct-parameter"@, "result"@);
        lemma_named_extend(evs, k5, s5, "parameter"@, "result"@);
        lemma_named_extend(evs, k6, s6, "result"@, "result"@);
        lemma_named_extend(evs, k7, s7, "xref"@, "result"@);
        assert(k0 + s6 =~= s6);
        lemma_named_extend(evs, k0, s0, "cocoa"@, "xref"@);
        lemma_named_extend(evs, k1, s1, "access-group"@, "xref"@);
        lemma_named_extend(evs, k2, s2, "synonym"@, "xref"@);
        lemma_named_extend(evs, k3, s3, "documentation"@, "xref"@);
        lemma_named_extend(evs, k4, s4, "direct-parameter"@, "xref"@);
        lemma_named_extend(evs, k5, s5, "parameter"@, "xref"@);
        lemma_named_extend(evs, k6, s6, "result"@, "xref"@);
        lemma_named_extend(evs, k7, s7, "xref"@, "xref"@);
        assert(k0 + s7 =~= s7);
        lemma_decode_clean(evs, k8);
        let a = tag_attrs(evs[i]);
        lemma_attrs_read_back(a, slots, 0);
        lemma_attrs_read_back(a, slots, 1);
        lemma_attrs_read_back(a, slots, 2);
        lemma_attrs_read_back(a, slots, 3);
        lemma_attrs_read_back(a, slots, 4);
        lemma_flag_reads_back(self.hidden);
    }
}

/// Strict mode knows the name a [`Command`] is written with, and checks none
/// of its attributes against a closed set.
proof fn lemma_command_strict_name()
    ensures
        known_names().contains("command"@),
        closed_rule("command"@) is None,
{
    reveal_strlit("command");
    reveal_strlit("accessor");
    assert("command"@.len() != "accessor"@.len());
    reveal_strlit("access-group");
    assert("command"@.len() != "access-group"@.len());
    reveal_strlit("cocoa");
    assert("command"@.len() != "cocoa"@.len());
    reveal_strlit("contents");
    assert("command"@.len() != "contents"@.len());
    reveal_strlit("direct-parameter");
    assert("command"@.len() != "direct-parameter"@.len());
    reveal_strlit("element");
    assert("command"@[0] != "element"@[0]);
    reveal_strlit("parameter");
    assert("command"@.len() != "parameter"@.len());
    reveal_strlit("property");
    assert("command"@.len() != "property"@.len());
    assert(known_names()[5] == "command"@);
}

impl StrictSafe for Command {
    open spec fn element_name() -> Seq<char> {
        "command"@
    }

    open spec fn canonical(self) -> bool {
        &&& all_canonical(opt_seq(self.cocoa))
        &&& all_canonical(self.access_groups@)
        &&& all_canonical(self.synonyms@)
        &&& all_canonical(self.documentation@)
        &&& all_canonical(opt_seq(self.direct_parameter))
        &&& all_canonical(self.parameters@)
        &&& all_canonical(opt_seq(self.result))
        &&& all_canonical(self.xrefs@)
    }

    proof fn lemma_passes_strict(self, evs: Seq<EventView>, i: int) {
        let slots = command_slots(self);
        lemma_command_names(self);
        lemma_command_strict_name();
        let p0 = i + 1;
        lemma_many_pass_strict(opt_seq(self.cocoa), evs, p0);
        let p1 = p0 + many_span(opt_seq(self.cocoa));
        lemma_many_pass_strict(self.access_groups@, evs, p1);
        let p2 = p1 + many_span(self.access_groups@);
        lemma_many_pass_strict(self.synonyms@, evs, p2);
        let p3 = p2 + many_span(self.synonyms@);
        lemma_many_pass_strict(self.documentation@, evs, p3);
        let p4 = p3 + many_span(self.documentation@);
        lemma_many_pass_strict(opt_seq(self.direct_parameter), evs, p4);
        let p5 = p4 + many_span(opt_seq(self.direct_parameter));
        lemma_many_pass_strict(self.parameters@, evs, p5);
        let p6 = p5 + many_span(self.parameters@);
        lemma_many_pass_strict(opt_seq(self.result), evs, p6);
        let p7 = p6 + many_span(opt_seq(self.result));
        lemma_many_pass_strict(self.xrefs@, evs, p7);
        let p8 = p7 + many_span(self.xrefs@);
        lemma_tags_pass_strict(evs, i, "command"@, slots, p8 - p0);
    }
}

/// An `<event>` — a verb the application receives from the system, e.g.
/// `"opened document"` for an `aevtodoc` Apple Event.
///
/// Structurally identical to [`Command`] aside from the absence of
/// `<access-group>` children: events are inbound notifications, so the
/// caller-side entitlement model doesn't apply.
#[derive(Debug, Clone, Hash, PartialEq, Eq)]
#[non_exhaustive]
pub struct Event {
    /// Human-readable event name (`name="…"`).
    pub name: String,
    /// Eight-character Apple Event code (`code="…"`).
    pub code: String,
    /// `id="…"` — optional unique identifier.
    pub id: Option<String>,
    /// Optional human description (`description="…"`).
    pub description: Option<String>,
    /// `hidden="yes"` flag, defaults to `false`.
    pub hidden: bool,
    /// Optional `<cocoa>` implementation hint child.
    pub cocoa: Option<Cocoa>,
    /// Zero or more `<synonym>` children.
    pub synonyms: Vec<Synonym>,
    /// `<documentation>` child blocks.
    pub documentation: Vec<Documentation>,
    /// Optional `<direct-parameter>`.
    pub direct_parameter: Option<DirectParameter>,
    /// `<parameter>` children.
    pub parameters: Vec<Parameter>,
    /// Optional `<result>`.
    pub result: Option<CommandResult>,
    /// Zero or more `<xref>` cross-reference children.
    pub xrefs: Vec<Xref>,
}

impl FromXml for Event {
    open spec fn xml_ok(evs: Seq<EventView>, i: int) -> bool {
        let a = tag_attrs(evs[i]);
        let ks = children(evs, i);
        &&& node_ok(evs, i)
        &&& req_value(a, "name"@) is Some
        &&& req_value(a, "code"@) is Some
        &&& attr_value(a, "id"@) is Ok
        &&& attr_value(a, "description"@) is Ok
        &&& flag_value(a, "hidden"@) is Ok
        &&& one_ok::<Cocoa>(evs, ks, "cocoa"@)
        &&& many_ok::<Synonym>(evs, ks, "synonym"@)
        &&& many_ok::<Documentation>(evs, ks, "documentation"@)
        &&& one_ok::<DirectParameter>(evs, ks, "direct-parameter"@)
        &&& many_ok::<Parameter>(evs, ks, "parameter"@)
        &&& one_ok::<CommandResult>(evs, ks, "result"@)
        &&& many_ok::<Xref>(evs, ks, "xref"@)
    }

    open spec fn xml_rel(self, evs: Seq<EventView>, i: int) -> bool {
        let a = tag_attrs(evs[i]);
        let ks = children(evs, i);
        &&& req_value(a, "name"@) == Some(self.name@)
        &&& req_value(a, "code"@) == Some(self.code@)
        &&& text_of(self.id) == opt_value(a, "id"@)
        &&& text_of(self.description) == opt_value(a, "description"@)
        &&& flag_value(a, "hidden"@) == Ok::<bool, ()>(self.hidden)
        &&& one_rel(self.cocoa, evs, ks, "cocoa"@)
        &&& many_rel(self.synonyms, evs, ks, "synonym"@)
        &&& many_rel(self.documentation, evs, ks, "documentation"@)
        &&& one_rel(self.direct_parameter, evs, ks, "direct-parameter"@)
        &&& many_rel(self.parameters, evs, ks, "parameter"@)
        &&& one_rel(self.result, evs, ks, "result"@)
        &&& many_rel(self.xrefs, evs, ks, "xref"@)
    }

    fn from_xml(evs: &Vec<XmlEvent>, i: usize) -> (r: Result<Self, Error>) {
        let ks = readable_children(evs, i)?;
        let a = attrs_at(evs, i);
        let name = required(a, "name")?;
        let code = required(a, "code")?;
        let id = attribute(a, "id")?;
        let description = attribute(a, "description")?;
        let hidden = flag(a, "hidden")?;
        let cocoa = at_most_one::<Cocoa>(evs, &ks, "cocoa")?;
        let synonyms = many::<Synonym>(evs, &ks, "synonym")?;
        let documentation = many::<Documentation>(evs, &ks, "documentation")?;
        let direct_parameter = at_most_one::<DirectParameter>(evs, &ks, "direct-parameter")?;
        let parameters = many::<Parameter>(evs, &ks, "parameter")?;
        let result = at_most_one::<CommandResult>(evs, &ks, "result")?;
        let xrefs = many::<Xref>(evs, &ks, "xref")?;
        Ok(Event { name, code, id, description, hidden, cocoa, synonyms, documentation, direct_parameter, parameters, result, xrefs })
    }
}

impl ToXml for Event {
    open spec fn xml_text(self, tag: Seq<char>) -> Seq<char> {
        element_xml(
            tag,
            attr_text("name"@, self.name@) +
                attr_text("code"@, self.code@) +
                opt_attr_text("id"@, self.id) +
                opt_attr_text("description"@, self.description) +
                flag_attr_text("hidden"@, self.hidden),
            one_text(self.cocoa, "cocoa"@) +
                many_text(self.synonyms@, "synonym"@) +
                many_text(self.documentation@, "documentation"@) +
                one_text(self.direct_parameter, "direct-parameter"@) +
                many_text(self.parameters@, "parameter"@) +
                one_text(self.result, "result"@) +
                many_text(self.xrefs@, "xref"@),
        )
    }

    fn write_xml(&self, tag: &str, out: &mut String) {
        let mut attrs = String::new();
        push_attr(&mut attrs, "name", self.name.as_str());
        assert(attrs@ =~= attr_text("name"@, self.name@));
        push_attr(&mut attrs, "code", self.code.as_str());
        push_opt_attr(&mut attrs, "id", &self.id);
        push_opt_attr(&mut attrs, "description", &self.description);
        push_flag_attr(&mut attrs, "hidden", self.hidden);
        let mut body = String::new();
        write_one(&self.cocoa, "cocoa", &mut body);
        assert(body@ =~= one_text(self.cocoa, "cocoa"@));
        write_many(&self.synonyms, "synonym", &mut body);
        write_many(&self.documentation, "documentation", &mut body);
        write_one(&self.direct_parameter, "direct-parameter", &mut body);
        write_many(&self.parameters, "parameter", &mut body);
        write_one(&self.result, "result", &mut body);
        write_many(&self.xrefs, "xref", &mut body);
        write_element(out, tag, &attrs, &body);
    }
}

/// The attribute slots written for a [`Event`].
pub open spec fn event_slots(x: Event) -> Seq<(Seq<char>, Option<Seq<char>>)> {
    seq![
        req_slot("name"@, x.name@),
        req_slot("code"@, x.code@),
        opt_slot("id"@, x.id),
        opt_slot("description"@, x.description),
        flag_slot("hidden"@, x.hidden),
    ]
}

/// The attribute keys of a [`Event`] are distinct, and so are the names of
/// its child elements.
proof fn lemma_event_names(x: Event)
    ensures
        keys_distinct(event_slots(x)),
        "cocoa"@ != "synonym"@,
        "cocoa"@ != "documentation"@,
        "cocoa"@ != "direct-parameter"@,
        "cocoa"@ != "parameter"@,
        "cocoa"@ != "result"@,
        "cocoa"@ != "xref"@,
        "synonym"@ != "documentation"@,
        "synonym"@ != "direct-parameter"@,
        "synonym"@ != "parameter"@,
        "synonym"@ != "result"@,
        "synonym"@ != "xref"@,
        "documentation"@ != "direct-parameter"@,
        "documentation"@ != "parameter"@,
        "documentation"@ != "result"@,
        "documentation"@ != "xref"@,
        "direct-parameter"@ != "parameter"@,
        "direct-parameter"@ != "result"@,
        "direct-parameter"@ != "xref"@,
        "parameter"@ != "result"@,
        "parameter"@ != "xref"@,
        "result"@ != "xref"@,
{
    reveal_strlit("code");
    reveal_strlit("description");
    reveal_strlit("hidden");
    reveal_strlit("id");
    reveal_strlit("name");
    assert("name"@[0] != "code"@[0]);
    assert("name"@.len() != "id"@.len());
    assert("name"@.len() != "description"@.len());
    assert("name"@.len() != "hidden"@.len());
    assert("code"@.len() != "id"@.len());
    assert("code"@.len() != "description"@.len());
    assert("code"@.len() != "hidden"@.len());
    assert("id"@.len() != "description"@.len());
    assert("id"@.len() != "hidden"@.len());
    assert("description"@.len() != "hidden"@.len());
    reveal_strlit("cocoa");
    reveal_strlit("direct-parameter");
    reveal_strlit("documentation");
    reveal_strlit("parameter");
    reveal_strlit("result");
    reveal_strlit("synonym");
    reveal_strlit("xref");
    assert("cocoa"@.len() != "synonym"@.len());
    assert("cocoa"@.len() != "documentation"@.len());
    assert("cocoa"@.len() != "direct-parameter"@.len());
    assert("cocoa"@.len() != "parameter"@.len());
    assert("cocoa"@.len() != "result"@.len());
    assert("cocoa"@.len() != "xref"@.len());
    assert("synonym"@.len() != "documentation"@.len());
    assert("synonym"@.len() != "direct-parameter"@.len());
    assert("synonym"@.len() != "parameter"@.len());
    assert("synonym"@.len() != "result"@.len());
    assert("synonym"@.len() != "xref"@.len());
    assert("documentation"@.len() != "direct-parameter"@.len());
    assert("documentation"@.len() != "parameter"@.len());
    assert("documentation"@.len() != "result"@.len());
    assert("documentation"@.len() != "xref"@.len());
    assert("direct-parameter"@.len() != "parameter"@.len());
    assert("direct-parameter"@.len() != "result"@.len());
    assert("direct-parameter"@.len() != "xref"@.len());
    assert("parameter"@.len() != "result"@.len());
    assert("parameter"@.len() != "xref"@.len());
    assert("result"@.len() != "xref"@.len());
}

impl ReadsBack for Event {
    open spec fn event_span(self) -> int {
        element_span(many_span(opt_seq(self.cocoa)) + many_span(self.synonyms@) + many_span(self.documentation@) + many_span(opt_seq(self.direct_parameter)) + many_span(self.parameters@) + many_span(opt_seq(self.result)) + many_span(self.xrefs@))
    }

    open spec fn spelled(self, evs: Seq<EventView>, i: int, tag: Seq<char>) -> bool {
        &&& element_spelled(evs, i, tag, event_slots(self), many_span(opt_seq(self.cocoa)) + many_span(self.synonyms@) + many_span(self.documentation@) + many_span(opt_seq(self.direct_parameter)) + many_span(self.parameters@) + many_span(opt_seq(self.result)) + many_span(self.xrefs@))
        &&& many_spelled(opt_seq(self.cocoa), evs, i + 1, "cocoa"@)
        &&& many_spelled(self.synonyms@, evs, i + 1 + many_span(opt_seq(self.cocoa)), "synonym"@)
        &&& many_spelled(self.documentation@, evs, i + 1 + many_span(opt_seq(self.cocoa)) + many_span(self.synonyms@), "documentation"@)
        &&& many_spelled(opt_seq(self.direct_parameter), evs, i + 1 + many_span(opt_seq(self.cocoa)) + many_span(self.synonyms@) + many_span(self.documentation@), "direct-parameter"@)
        &&& many_spelled(self.parameters@, evs, i + 1 + many_span(opt_seq(self.cocoa)) + many_span(self.synonyms@) + many_span(self.documentation@) + many_span(opt_seq(self.direct_parameter)), "parameter"@)
        &&& many_spelled(opt_seq(self.result), evs, i + 1 + many_span(opt_seq(self.cocoa)) + many_span(self.synonyms@) + many_span(self.documentation@) + many_span(opt_seq(self.direct_parameter)) + many_span(self.parameters@), "result"@)
        &&& many_spelled(self.xrefs@, evs, i + 1 + many_span(opt_seq(self.cocoa)) + many_span(self.synonyms@) + many_span(self.documentation@) + many_span(opt_seq(self.direct_parameter)) + many_span(self.parameters@) + many_span(opt_seq(self.result)), "xref"@)
    }

    open spec fn writable(self) -> bool {
        &&& all_writable(opt_seq(self.cocoa))
        &&& all_writable(self.synonyms@)
        &&& all_writable(self.documentation@)
        &&& all_writable(opt_seq(self.direct_parameter))
        &&& all_writable(self.parameters@)
        &&& all_writable(opt_seq(self.result))
        &&& all_writable(self.xrefs@)
    }

    #[verifier::spinoff_prover]
    #[verifier::rlimit(100)]
    proof fn lemma_reads_back(self, evs: Seq<EventView>, i: int, tag: Seq<char>) {
        let slots = event_slots(self);
        lemma_event_names(self);
        let p0 = i + 1;
        let k0: Seq<int> = seq![];
        lemma_decode_empty(evs);
        assert(kids_from(evs, p0) =~= k0 + kids_from(evs, p0));
        let g0 = opt_seq(self.cocoa);
        lemma_many_reads_back(g0, evs, p0, "cocoa"@);
        let s0 = many_starts(g0, p0);
        let p1 = p0 + many_span(g0);
        let k1 = k0 + s0;
        lemma_seq_assoc(k0, s0, kids_from(evs, p1));
        lemma_starts_tagged(g0, evs, p0, "cocoa"@);
        lemma_tagged_decode(evs, s0, "cocoa"@);
        lemma_decode_append(evs, k0, s0);
        let g1 = self.synonyms@;
        lemma_many_reads_back(g1, evs, p1, "synonym"@);
        let s1 = many_starts(g1, p1);
        let p2 = p1 + many_span(g1);
        let k2 = k1 + s1;
        lemma_seq_assoc(k1, s1, kids_from(evs, p2));
        lemma_starts_tagged(g1, evs, p1, "synonym"@);
        lemma_tagged_decode(evs, s1, "synonym"@);
        lemma_decode_append(evs, k1, s1);
        let g2 = self.documentation@;
        lemma_many_reads_back(g2, evs, p2, "documentation"@);
        let s2 = many_starts(g2, p2);
        let p3 = p2 + many_span(g2);
        let k3 = k2 + s2;
        lemma_seq_assoc(k2, s2, kids_from(evs, p3));
        lemma_starts_tagged(g2, evs, p2, "documentation"@);
        lemma_tagged_decode(evs, s2, "documentation"@);
        lemma_decode_append(evs, k2, s2);
        let g3 = opt_seq(self.direct_parameter);
        lemma_many_reads_back(g3, evs, p3, "direct-parameter"@);
        let s3 = many_starts(g3, p3);
        let p4 = p3 + many_span(g3);
        let k4 = k3 + s3;
        lemma_seq_assoc(k3, s3, kids_from(evs, p4));
        lemma_starts_tagged(g3, evs, p3, "direct-parameter"@);
        lemma_tagged_decode(evs, s3, "direct-parameter"@);
        lemma_decode_append(evs, k3, s3);
        let g4 = self.parameters@;
        lemma_many_reads_back(g4, evs, p4, "parameter"@);
        let s4 = many_starts(g4, p4);
        let p5 = p4 + many_span(g4);
        let k5 = k4 + s4;
        lemma_seq_assoc(k4, s4, kids_from(evs, p5));
        lemma_starts_tagged(g4, evs, p4, "parameter"@);
        lemma_tagged_decode(evs, s4, "parameter"@);
        lemma_decode_append(evs, k4, s4);
        let g5 = opt_seq(self.result);
        lemma_many_reads_back(g5, evs, p5, "result"@);
        let s5 = many_starts(g5, p5);
        let p6 = p5 + many_span(g5);
        let k6 = k5 + s5;
        lemma_seq_assoc(k5, s5, kids_from(evs, p6));
        lemma_starts_tagged(g5, evs, p5, "result"@);
        lemma_tagged_decode(evs, s5, "result"@);
        lemma_decode_append(evs, k5, s5);
        let g6 = self.xrefs@;
        lemma_many_reads_back(g6, evs, p6, "xref"@);
        let s6 = many_starts(g6, p6);
        let p7 = p6 + many_span(g6);
        let k7 = k6 + s6;
        lemma_seq_assoc(k6, s6, kids_from(evs, p7));
        lemma_starts_tagged(g6, evs, p6, "xref"@);
        lemma_tagged_decode(evs, s6, "xref"@);
        lemma_decode_append(evs, k6, s6);
        let n = p7 - p0;
        assert(forall|close: Seq<u8>| #![trigger content_end(evs, p0, close)] content_end(evs, p0, close) == content_end(evs, p0 + n, close));
        lemma_element_tags(evs, i, tag, slots, n, k7);
        lemma_named_extend(evs, k0, s0, "cocoa"@, "cocoa"@);
        lemma_named_extend(evs, k1, s1, "synonym"@, "cocoa"@);
        lemma_named_extend(evs, k2, s2, "documentation"@, "cocoa"@);
        lemma_named_extend(evs, k3, s3, "direct-parameter"@, "cocoa"@);
        lemma_named_extend(evs, k4, s4, "parameter"@, "cocoa"@);
        lemma_named_extend(evs, k5, s5, "result"@, "cocoa"@);
        lemma_named_extend(evs, k6, s6, "xref"@, "cocoa"@);
        assert(k0 + s0 =~= s0);
        lemma_named_extend(evs, k0, s0, "cocoa"@, "synonym"@);
        lemma_named_extend(evs, k1, s1, "synonym"@, "synonym"@);
        lemma_named_extend(evs, k2, s2, "documentation"@, "synonym"@);
        lemma_named_extend(evs, k3, s3, "direct-parameter"@, "synonym"@);
        lemma_named_extend(evs, k4, s4, "parameter"@, "synonym"@);
        lemma_named_extend(evs, k5, s5, "result"@, "synonym"@);
        lemma_named_extend(evs, k6, s6, "xref"@, "synonym"@);
        assert(k0 + s1 =~= s1);
        lemma_named_extend(evs, k0, s0, "cocoa"@, "documentation"@);
        lemma_named_extend(evs, k1, s1, "synonym"@, "documentation"@);
        lemma_named_extend(evs, k2, s2, "documentation"@, "documentation"@);
        lemma_named_extend(evs, k3, s3, "direct-parameter"@, "documentation"@);
        lemma_named_extend(evs, k4, s4, "parameter"@, "documentation"@);
        lemma_named_extend(evs, k5, s5, "result"@, "documentation"@);
        lemma_named_extend(evs, k6, s6, "xref"@, "documentation"@);
        assert(k0 + s2 =~= s2);
        lemma_named_extend(evs, k0, s0, "cocoa"@, "direct-parameter"@);
        lemma_named_extend(evs, k1, s1, "synonym"@, "direct-parameter"@);
        lemma_named_extend(evs, k2, s2, "documentation"@, "direct-parameter"@);
        lemma_named_extend(evs, k3, s3, "direct-parameter"@, "direct-parameter"@);
        lemma_named_extend(evs, k4, s4, "parameter"@, "direct-parameter"@);
        lemma_named_extend(evs, k5, s5, "result"@, "direct-parameter"@);
        lemma_named_extend(evs, k6, s6, "xref"@, "direct-parameter"@);
        assert(k0 + s3 =~= s3);
        lemma_named_extend(evs, k0, s0, "cocoa"@, "parameter"@);
        lemma_named_extend(evs, k1, s1, "synonym"@, "parameter"@);
        lemma_named_extend(evs, k2, s2, "documentation"@, "parameter"@);
        lemma_named_extend(evs, k3, s3, "direct-parameter"@, "parameter"@);
        lemma_named_extend(evs, k4, s4, "parameter"@, "parameter"@);
        lemma_named_extend(evs, k5, s5, "result"@, "parameter"@);
        lemma_named_extend(evs, k6, s6, "xref"@, "parameter"@);
        assert(k0 + s4 =~= s4);
        lemma_named_extend(evs, k0, s0, "cocoa"@, "result"@);
        lemma_named_extend(evs, k1, s1, "synonym"@, "result"@);
        lemma_named_extend(evs, k2, s2, "documentation"@, "result"@);
        lemma_named_extend(evs, k3, s3, "direct-parameter"@, "result"@);
        lemma_named_extend(evs, k4, s4, "parameter"@, "result"@);
        lemma_named_extend(evs, k5, s5, "result"@, "result"@);
        lemma_named_extend(evs, k6, s6, "xref"@, "result"@);
        assert(k0 + s5 =~= s5);
        lemma_named_extend(evs, k0, s0, "cocoa"@, "xref"@);
        lemma_named_extend(evs, k1, s1, "synonym"@, "xref"@);
        lemma_named_extend(evs, k2, s2, "documentation"@, "xref"@);
        lemma_named_extend(evs, k3, s3, "direct-parameter"@, "xref"@);
        lemma_named_extend(evs, k4, s4, "parameter"@, "xref"@);
        lemma_named_extend(evs, k5, s5, "result"@, "xref"@);
        lemma_named_extend(evs, k6, s6, "xref"@, "xref"@);
        assert(k0 + s6 =~= s6);
        lemma_decode_clean(evs, k7);
        let a = tag_attrs(evs[i]);
        lemma_attrs_read_back(a, slots, 0);
        lemma_attrs_read_back(a, slots, 1);
        lemma_attrs_read_back(a, slots, 2);
        lemma_attrs_read_back(a, slots, 3);
        lemma_attrs_read_back(a, slots, 4);
        lemma_flag_reads_back(self.hidden);
    }
}

/// Strict mode knows the name a [`Event`] is written with, and checks none
/// of its attributes against a closed set.
proof fn lemma_event_strict_name()
    ensures
        known_names().contains("event"@),
        closed_rule("event"@) is None,
{
    reveal_strlit("event");
    reveal_strlit("accessor");
    assert("event"@.len() != "accessor"@.len());
    reveal_strlit("access-group");
    assert("event"@.len() != "access-group"@.len());
    reveal_strlit("cocoa");
    assert("event"@[0] != "cocoa"@[0]);
    reveal_strlit("contents");
    assert("event"@.len() != "contents"@.len());
    reveal_strlit("direct-parameter");
    assert("event"@.len() != "direct-parameter"@.len());
    reveal_strlit("element");
    assert("event"@.len() != "element"@.len());
    reveal_strlit("parameter");
    assert("event"@.len() != "parameter"@.len());
    reveal_strlit("property");
    assert("event"@.len() != "property"@.len());
    assert(known_names()[13] == "event"@);
}

impl StrictSafe for Event {
    open spec fn element_name() -> Seq<char> {
        "event"@
    }

    open spec fn canonical(self) -> bool {
        &&& all_canonical(opt_seq(self.cocoa))
        &&& all_canonical(self.synonyms@)
        &&& all_canonical(self.documentation@)
        &&& all_canonical(opt_seq(self.direct_parameter))
        &&& all_canonical(self.parameters@)
        &&& all_canonical(opt_seq(self.result))
        &&& all_canonical(self.xrefs@)
    }

    proof fn lemma_passes_strict(self, evs: Seq<EventView>, i: int) {
        let slots = event_slots(self);
        lemma_event_names(self);
        lemma_event_strict_name();
        let p0 = i + 1;
        lemma_many_pass_strict(opt_seq(self.cocoa), evs, p0);
        let p1 = p0 + many_span(opt_seq(self.cocoa));
        lemma_many_pass_strict(self.synonyms@, evs, p1);
        let p2 = p1 + many_span(self.synonyms@);
        lemma_many_pass_strict(self.documentation@, evs, p2);
        let p3 = p2 + many_span(self.documentation@);
        lemma_many_pass_strict(opt_seq(self.direct_parameter), evs, p3);
        let p4 = p3 + many_span(opt_seq(self.direct_parameter));
        lemma_many_pass_strict(self.parameters@, evs, p4);
        let p5 = p4 + many_span(self.parameters@);
        lemma_many_pass_strict(opt_seq(self.result), evs, p5);
        let p6 = p5 + many_span(opt_seq(self.result));
        lemma_many_pass_strict(self.xrefs@, evs, p6);
        let p7 = p6 + many_span(self.xrefs@);
        lemma_tags_pass_strict(evs, i, "event"@, slots, p7 - p0);
    }
}

/// A `<parameter>` of a `<command>` or `<event>`.
#[derive(Debug, Clone, Hash, PartialEq, Eq)]
#[non_exhaustive]
pub struct Parameter {
    /// Human-readable parameter name (`name="…"`), e.g. `"from date"`.
    pub name: String,
    /// Four-character parameter code (`code="…"`), e.g. `"frdt"`.
    pub code: String,
    /// Parameter value type (`type="…"`); mutually exclusive with
    /// [`Self::types`] in well-formed sdefs.
    pub ty: Option<String>,
    /// `optional="yes"` flag, defaults to `false`.
    pub optional: bool,
    /// `hidden="yes"` flag, defaults to `false`.
    pub hidden: bool,
    /// `requires-access="r|w|rw"` — sandbox-access requirement for this
    /// parameter's value. `None` when the attribute is absent.
    pub requires_access: Option<Access>,
    /// Optional human description (`description="…"`).
    pub description: Option<String>,
    /// Optional `<cocoa>` implementation hint child.
    pub cocoa: Option<Cocoa>,
    /// `<type>` child elements (list or union types).
    pub types: Vec<TypeRef>,
    /// `<documentation>` child blocks (since OS X 10.10).
    pub documentation: Vec<Documentation>,
}

impl FromXml for Parameter {
    open spec fn xml_ok(evs: Seq<EventView>, i: int) -> bool {
        let a = tag_attrs(evs[i]);
        let ks = children(evs, i);
        &&& node_ok(evs, i)
        &&& req_value(a, "name"@) is Some
        &&& req_value(a, "code"@) is Some
        &&& attr_value(a, "type"@) is Ok
        &&& flag_value(a, "optional"@) is Ok
        &&& flag_value(a, "hidden"@) is Ok
        &&& attr_value(a, "requires-access"@) is Ok
        &&& attr_value(a, "description"@) is Ok
        &&& one_ok::<Cocoa>(evs, ks, "cocoa"@)
        &&& many_ok::<TypeRef>(evs, ks, "type"@)
        &&& many_ok::<Documentation>(evs, ks, "documentation"@)
    }

    open spec fn xml_rel(self, evs: Seq<EventView>, i: int) -> bool {
        let a = tag_attrs(evs[i]);
        let ks = children(evs, i);
        &&& req_value(a, "name"@) == Some(self.name@)
        &&& req_value(a, "code"@) == Some(self.code@)
        &&& text_of(self.ty) == opt_value(a, "type"@)
        &&& flag_value(a, "optional"@) == Ok::<bool, ()>(self.optional)
        &&& flag_value(a, "hidden"@) == Ok::<bool, ()>(self.hidden)
        &&& access_rel(self.requires_access, opt_value(a, "requires-access"@))
        &&& text_of(self.description) == opt_value(a, "description"@)
        &&& one_rel(self.cocoa, evs, ks, "cocoa"@)
        &&& many_rel(self.types, evs, ks, "type"@)
        &&& many_rel(self.documentation, evs, ks, "documentation"@)
    }

    fn from_xml(evs: &Vec<XmlEvent>, i: usize) -> (r: Result<Self, Error>) {
        let ks = readable_children(evs, i)?;
        let a = attrs_at(evs, i);
        let name = required(a, "name")?;
        let code = required(a, "code")?;
        let ty = attribute(a, "type")?;
        let optional = flag(a, "optional")?;
        let hidden = flag(a, "hidden")?;
        let requires_access = access_attr(a, "requires-access")?;
        let description = attribute(a, "description")?;
        let cocoa = at_most_one::<Cocoa>(evs, &ks, "cocoa")?;
        let types = many::<TypeRef>(evs, &ks, "type")?;
        let documentation = many::<Documentation>(evs, &ks, "documentation")?;
        Ok(Parameter { name, code, ty, optional, hidden, requires_access, description, cocoa, types, documentation })
    }
}

impl ToXml for Parameter {
    open spec fn xml_text(self, tag: Seq<char>) -> Seq<char> {
        element_xml(
            tag,
            attr_text("name"@, self.name@) +
                attr_text("code"@, self.code@) +
                opt_attr_text("type"@, self.ty) +
                flag_attr_text("optional"@, self.optional) +
                flag_attr_text("hidden"@, self.hidden) +
                access_attr_text("requires-access"@, self.requires_access) +
                opt_attr_text("description"@, self.description),
            one_text(self.cocoa, "cocoa"@) +
                many_text(self.types@, "type"@) +
                many_text(self.documentation@, "documentation"@),
        )
    }

    fn write_xml(&self, tag: &str, out: &mut String) {
        let mut attrs = String::new();
        push_attr(&mut attrs, "name", self.name.as_str());
        assert(attrs@ =~= attr_text("name"@, self.name@));
        push_attr(&mut attrs, "code", self.code.as_str());
        push_opt_attr(&mut attrs, "type", &self.ty);
        push_flag_attr(&mut attrs, "optional", self.optional);
        push_flag_attr(&mut attrs, "hidden", self.hidden);
        push_access_attr(&mut attrs, "requires-access", &self.requires_access);
        push_opt_attr(&mut attrs, "description", &self.description);
        let mut body = String::new();
        write_one(&self.cocoa, "cocoa", &mut body);
        assert(body@ =~= one_text(self.cocoa, "cocoa"@));
        write_many(&self.types, "type", &mut body);
        write_many(&self.documentation, "documentation", &mut body);
        write_element(out, tag, &attrs, &body);
    }
}

/// The attribute slots written for a [`Parameter`].
pub open spec fn parameter_slots(x: Parameter) -> Seq<(Seq<char>, Option<Seq<char>>)> {
    seq![
        req_slot("name"@, x.name@),
        req_slot("code"@, x.code@),
        opt_slot("type"@, x.ty),
        flag_slot("optional"@, x.optional),
        flag_slot("hidden"@, x.hidden),
        access_slot("requires-access"@, x.requires_access),
        opt_slot("description"@, x.description),
    ]
}

/// The attribute keys of a [`Parameter`] are distinct, and so are the names of
/// its child elements.
proof fn lemma_parameter_names(x: Parameter)
    ensures
        keys_distinct(parameter_slots(x)),
        "cocoa"@ != "type"@,
        "cocoa"@ != "documentation"@,
        "type"@ != "documentation"@,
{
    reveal_strlit("code");
    reveal_strlit("description");
    reveal_strlit("hidden");
    reveal_strlit("name");
    reveal_strlit("optional");
    reveal_strlit("requires-access");
    reveal_strlit("type");
    assert("name"@[0] != "code"@[0]);
    assert("name"@[0] != "type"@[0]);
    assert("name"@.len() != "optional"@.len());
    assert("name"@.len() != "hidden"@.len());
    assert("name"@.len() != "requires-access"@.len());
    assert("name"@.len() != "description"@.len());
    assert("code"@[0] != "type"@[0]);
    assert("code"@.len() != "optional"@.len());
    assert("code"@.len() != "hidden"@.len());
    assert("code"@.len() != "requires-access"@.len());
    assert("code"@.len() != "description"@.len());
    assert("type"@.len() != "optional"@.len());
    assert("type"@.len() != "hidden"@.len());
    assert("type"@.len() != "requires-access"@.len());
    assert("type"@.len() != "description"@.len());
    assert("optional"@.len() != "hidden"@.len());
    assert("optional"@.len() != "requires-access"@.len());
    assert("optional"@.len() != "description"@.len());
    assert("hidden"@.len() != "requires-access"@.len());
    assert("hidden"@.len() != "description"@.len());
    assert("requires-access"@.len() != "description"@.len());
    reveal_strlit("cocoa");
    reveal_strlit("documentation");
    assert("cocoa"@.len() != "type"@.len());
    assert("cocoa"@.len() != "documentation"@.len());
    assert("type"@.len() != "documentation"@.len());
}

impl ReadsBack for Parameter {
    open spec fn event_span(self) -> int {
        element_span(many_span(opt_seq(self.cocoa)) + many_span(self.types@) + many_span(self.documentation@))
    }

    open spec fn spelled(self, evs: Seq<EventView>, i: int, tag: Seq<char>) -> bool {
        &&& element_spelled(evs, i, tag, parameter_slots(self), many_span(opt_seq(self.cocoa)) + many_span(self.types@) + many_span(self.documentation@))
        &&& many_spelled(opt_seq(self.cocoa), evs, i + 1, "cocoa"@)
        &&& many_spelled(self.types@, evs, i + 1 + many_span(opt_seq(self.cocoa)), "type"@)
        &&& many_spelled(self.documentation@, evs, i + 1 + many_span(opt_seq(self.cocoa)) + many_span(self.types@), "documentation"@)
    }

    open spec fn writable(self) -> bool {
        &&& access_writable(self.requires_access)
        &&& all_writable(opt_seq(self.cocoa))
        &&& all_writable(self.types@)
        &&& all_writable(self.documentation@)
    }

    #[verifier::spinoff_prover]
    #[verifier::rlimit(100)]
    proof fn lemma_reads_back(self, evs: Seq<EventView>, i: int, tag: Seq<char>) {
        let slots = parameter_slots(self);
        lemma_parameter_names(self);
        let p0 = i + 1;
        let k0: Seq<int> = seq![];
        lemma_decode_empty(evs);
        assert(kids_from(evs, p0) =~= k0 + kids_from(evs, p0));
        let g0 = opt_seq(self.cocoa);
        lemma_many_reads_back(g0, evs, p0, "cocoa"@);
        let s0 = many_starts(g0, p0);
        let p1 = p0 + many_span(g0);
        let k1 = k0 + s0;
        lemma_seq_assoc(k0, s0, kids_from(evs, p1));
        lemma_starts_tagged(g0, evs, p0, "cocoa"@);
        lemma_tagged_decode(evs, s0, "cocoa"@);
        lemma_decode_append(evs, k0, s0);
        let g1 = self.types@;
        lemma_many_reads_back(g1, evs, p1, "type"@);
        let s1 = many_starts(g1, p1);
        let p2 = p1 + many_span(g1);
        let k2 = k1 + s1;
        lemma_seq_assoc(k1, s1, kids_from(evs, p2));
        lemma_starts_tagged(g1, evs, p1, "type"@);
        lemma_tagged_decode(evs, s1, "type"@);
        lemma_decode_append(evs, k1, s1);
        let g2 = self.documentation@;
        lemma_many_reads_back(g2, evs, p2, "documentation"@);
        let s2 = many_starts(g2, p2);
        let p3 = p2 + many_span(g2);
        let k3 = k2 + s2;
        lemma_seq_assoc(k2, s2, kids_from(evs, p3));
        lemma_starts_tagged(g2, evs, p2, "documentation"@);
        lemma_tagged_decode(evs, s2, "documentation"@);
        lemma_decode_append(evs, k2, s2);
        let n = p3 - p0;
        assert(forall|close: Seq<u8>| #![trigger content_end(evs, p0, close)] content_end(evs, p0, close) == content_end(evs, p0 + n, close));
        lemma_element_tags(evs, i, tag, slots, n, k3);
        lemma_named_extend(evs, k0, s0, "cocoa"@, "cocoa"@);
        lemma_named_extend(evs, k1, s1, "type"@, "cocoa"@);
        lemma_named_extend(evs, k2, s2, "documentation"@, "cocoa"@);
        assert(k0 + s0 =~= s0);
        lemma_named_extend(evs, k0, s0, "cocoa"@, "type"@);
        lemma_named_extend(evs, k1, s1, "type"@, "type"@);
        lemma_named_extend(evs, k2, s2, "documentation"@, "type"@);
        assert(k0 + s1 =~= s1);
        lemma_named_extend(evs, k0, s0, "cocoa"@, "documentation"@);
        lemma_named_extend(evs, k1, s1, "type"@, "documentation"@);
        lemma_named_extend(evs, k2, s2, "documentation"@, "documentation"@);
        assert(k0 + s2 =~= s2);
        lemma_decode_clean(evs, k3);
        let a = tag_attrs(evs[i]);
        lemma_attrs_read_back(a, slots, 0);
        lemma_attrs_read_back(a, slots, 1);
        lemma_attrs_read_back(a, slots, 2);
        lemma_attrs_read_back(a, slots, 3);
        lemma_flag_reads_back(self.optional);
        lemma_attrs_read_back(a, slots, 4);
        lemma_flag_reads_back(self.hidden);
        lemma_attrs_read_back(a, slots, 5);
        lemma_attrs_read_back(a, slots, 6);
    }
}

/// Strict mode knows the name a [`Parameter`] is written with, and checks its
/// `requires-access` attribute against a closed set.
proof fn lemma_parameter_strict_name()
    ensures
        known_names().contains("parameter"@),
        closed_rule("parameter"@) == Some(("requires-access"@, rw_values())),
{
    reveal_strlit("parameter");
    reveal_strlit("accessor");
    assert("parameter"@.len() != "accessor"@.len());
    reveal_strlit("access-group");
    assert("parameter"@.len() != "access-group"@.len());
    reveal_strlit("cocoa");
    assert("parameter"@.len() != "cocoa"@.len());
    reveal_strlit("contents");
    assert("parameter"@.len() != "contents"@.len());
    reveal_strlit("direct-parameter");
    assert("parameter"@.len() != "direct-parameter"@.len());
    reveal_strlit("element");
    assert("parameter"@.len() != "element"@.len());
    assert(known_names()[15] == "parameter"@);
}

impl StrictSafe for Parameter {
    open spec fn element_name() -> Seq<char> {
        "parameter"@
    }

    open spec fn canonical(self) -> bool {
        &&& access_canonical(self.requires_access)
        &&& all_canonical(opt_seq(self.cocoa))
        &&& all_canonical(self.types@)
        &&& all_canonical(self.documentation@)
    }

    proof fn lemma_passes_strict(self, evs: Seq<EventView>, i: int) {
        let slots = parameter_slots(self);
        lemma_parameter_names(self);
        lemma_parameter_strict_name();
        lemma_access_allowed(self.requires_access);
        lemma_closed_attribute_passes(tag_attrs(evs[i]), slots, 5, rw_values());
        let p0 = i + 1;
        lemma_many_pass_strict(opt_seq(self.cocoa), evs, p0);
        let p1 = p0 + many_span(opt_seq(self.cocoa));
        lemma_many_pass_strict(self.types@, evs, p1);
        let p2 = p1 + many_span(self.types@);
        lemma_many_pass_strict(self.documentation@, evs, p2);
        let p3 = p2 + many_span(self.documentation@);
        lemma_tags_pass_strict(evs, i, "parameter"@, slots, p3 - p0);
    }
}

/// The un-named first argument of a command (`<direct-parameter>`).
///
/// Carries the same attributes as a regular parameter except for `name` —
/// direct parameters are positional in AppleScript syntax.
#[derive(Debug, Clone, Hash, PartialEq, Eq)]
#[non_exhaustive]
pub struct DirectParameter {
    /// Value type (`type="…"`).
    pub ty: Option<String>,
    /// `optional="yes"` flag.
    pub optional: bool,
    /// `hidden="yes"` flag, defaults to `false`.
    pub hidden: bool,
    /// `requires-access="r|w|rw"` — sandbox-access requirement.
    pub requires_access: Option<Access>,
    /// Optional human description (`description="…"`).
    pub description: Option<String>,
    /// `<type>` child elements (list/union expressions).
    pub types: Vec<TypeRef>,
    /// `<documentation>` child blocks (since OS X 10.10).
    pub documentation: Vec<Documentation>,
}

impl FromXml for DirectParameter {
    open spec fn xml_ok(evs: Seq<EventView>, i: int) -> bool {
        let a = tag_attrs(evs[i]);
        let ks = children(evs, i);
        &&& node_ok(evs, i)
        &&& attr_value(a, "type"@) is Ok
        &&& flag_value(a, "optional"@) is Ok
        &&& flag_value(a, "hidden"@) is Ok
        &&& attr_value(a, "requires-access"@) is Ok
        &&& attr_value(a, "description"@) is Ok
        &&& many_ok::<TypeRef>(evs, ks, "type"@)
        &&& many_ok::<Documentation>(evs, ks, "documentation"@)
    }

    open spec fn xml_rel(self, evs: Seq<EventView>, i: int) -> bool {
        let a = tag_attrs(evs[i]);
        let ks = children(evs, i);
        &&& text_of(self.ty) == opt_value(a, "type"@)
        &&& flag_value(a, "optional"@) == Ok::<bool, ()>(self.optional)
        &&& flag_value(a, "hidden"@) == Ok::<bool, ()>(self.hidden)
        &&& access_rel(self.requires_access, opt_value(a, "requires-access"@))
        &&& text_of(self.description) == opt_value(a, "description"@)
        &&& many_rel(self.types, evs, ks, "type"@)
        &&& many_rel(self.documentation, evs, ks, "documentation"@)
    }

    fn from_xml(evs: &Vec<XmlEvent>, i: usize) -> (r: Result<Self, Error>) {
        let ks = readable_children(evs, i)?;
        let a = attrs_at(evs, i);
        let ty = attribute(a, "type")?;
        let optional = flag(a, "optional")?;
        let hidden = flag(a, "hidden")?;
        let requires_access = access_attr(a, "requires-access")?;
        let description = attribute(a, "description")?;
        let types = many::<TypeRef>(evs, &ks, "type")?;
        let documentation = many::<Documentation>(evs, &ks, "documentation")?;
        Ok(DirectParameter { ty, optional, hidden, requires_access, description, types, documentation })
    }
}

impl ToXml for DirectParameter {
    open spec fn xml_text(self, tag: Seq<char>) -> Seq<char> {
        element_xml(
            tag,
            opt_attr_text("type"@, self.ty) +
                flag_attr_text("optional"@, self.optional) +
                flag_attr_text("hidden"@, self.hidden) +
                access_attr_text("requires-access"@, self.requires_access) +
                opt_attr_text("description"@, self.description),
            many_text(self.types@, "type"@) +
                many_text(self.documentation@, "documentation"@),
        )
    }

    fn write_xml(&self, tag: &str, out: &mut String) {
        let mut attrs = String::new();
        push_opt_attr(&mut attrs, "type", &self.ty);
        assert(attrs@ =~= opt_attr_text("type"@, self.ty));
        push_flag_attr(&mut attrs, "optional", self.optional);
        push_flag_attr(&mut attrs, "hidden", self.hidden);
        push_access_attr(&mut attrs, "requires-access", &self.requires_access);
        push_opt_attr(&mut attrs, "description", &self.description);
        let mut body = String::new();
        write_many(&self.types, "type", &mut body);
        assert(body@ =~= many_text(self.types@, "type"@));
        write_many(&self.documentation, "documentation", &mut body);
        write_element(out, tag, &attrs, &body);
    }
}

/// The attribute slots written for a [`DirectParameter`].
pub open spec fn direct_parameter_slots(x: DirectParameter) -> Seq<(Seq<char>, Option<Seq<char>>)> {
    seq![
        opt_slot("type"@, x.ty),
        flag_slot("optional"@, x.optional),
        flag_slot("hidden"@, x.hidden),
        access_slot("requires-access"@, x.requires_access),
        opt_slot("description"@, x.description),
    ]
}

/// The attribute keys of a [`DirectParameter`] are distinct, and so are the names of
/// its child elements.
proof fn lemma_direct_parameter_names(x: DirectParameter)
    ensures
        keys_distinct(direct_parameter_slots(x)),
        "type"@ != "documentation"@,
{
    reveal_strlit("description");
    reveal_strlit("hidden");
    reveal_strlit("optional");
    reveal_strlit("requires-access");
    reveal_strlit("type");
    assert("type"@.len() != "optional"@.len());
    assert("type"@.len() != "hidden"@.len());
    assert("type"@.len() != "requires-access"@.len());
    assert("type"@.len() != "description"@.len());
    assert("optional"@.len() != "hidden"@.len());
    assert("optional"@.len() != "requires-access"@.len());
    assert("optional"@.len() != "description"@.len());
    assert("hidden"@.len() != "requires-access"@.len());
    assert("hidden"@.len() != "description"@.len());
    assert("requires-access"@.len() != "description"@.len());
    reveal_strlit("documentation");
    assert("type"@.len() != "documentation"@.len());
}

impl ReadsBack for DirectParameter {
    open spec fn event_span(self) -> int {
        element_span(many_span(self.types@) + many_span(self.documentation@))
    }

    open spec fn spelled(self, evs: Seq<EventView>, i: int, tag: Seq<char>) -> bool {
        &&& element_spelled(evs, i, tag, direct_parameter_slots(self), many_span(self.types@) + many_span(self.documentation@))
        &&& many_spelled(self.types@, evs, i + 1, "type"@)
        &&& many_spelled(self.documentation@, evs, i + 1 + many_span(self.types@), "documentation"@)
    }

    open spec fn writable(self) -> bool {
        &&& access_writable(self.requires_access)
        &&& all_writable(self.types@)
        &&& all_writable(self.documentation@)
    }

    #[verifier::spinoff_prover]
    #[verifier::rlimit(100)]
    proof fn lemma_reads_back(self, evs: Seq<EventView>, i: int, tag: Seq<char>) {
        let slots = direct_parameter_slots(self);
        lemma_direct_parameter_names(self);
        let p0 = i + 1;
        let k0: Seq<int> = seq![];
        lemma_decode_empty(evs);
        assert(kids_from(evs, p0) =~= k0 + kids_from(evs, p0));
        let g0 = self.types@;
        lemma_many_reads_back(g0, evs, p0, "type"@);
        let s0 = many_starts(g0, p0);
        let p1 = p0 + many_span(g0);
        let k1 = k0 + s0;
        lemma_seq_assoc(k0, s0, kids_from(evs, p1));
        lemma_starts_tagged(g0, evs, p0, "type"@);
        lemma_tagged_decode(evs, s0, "type"@);
        lemma_decode_append(evs, k0, s0);
        let g1 = self.documentation@;
        lemma_many_reads_back(g1, evs, p1, "documentation"@);
        let s1 = many_starts(g1, p1);
        let p2 = p1 + many_span(g1);
        let k2 = k1 + s1;
        lemma_seq_assoc(k1, s1, kids_from(evs, p2));
        lemma_starts_tagged(g1, evs, p1, "documentation"@);
        lemma_tagged_decode(evs, s1, "documentation"@);
        lemma_decode_append(evs, k1, s1);
        let n = p2 - p0;
        assert(forall|close: Seq<u8>| #![trigger content_end(evs, p0, close)] content_end(evs, p0, close) == content_end(evs, p0 + n, close));
        lemma_element_tags(evs, i, tag, slots, n, k2);
        lemma_named_extend(evs, k0, s0, "type"@, "type"@);
        lemma_named_extend(evs, k1, s1, "documentation"@, "type"@);
        assert(k0 + s0 =~= s0);
        lemma_named_extend(evs, k0, s0, "type"@, "documentation"@);
        lemma_named_extend(evs, k1, s1, "documentation"@, "documentation"@);
        assert(k0 + s1 =~= s1);
        lemma_decode_clean(evs, k2);
        let a = tag_attrs(evs[i]);
        lemma_attrs_read_back(a, slots, 0);
        lemma_attrs_read_back(a, slots, 1);
        lemma_flag_reads_back(self.optional);
        lemma_attrs_read_back(a, slots, 2);
        lemma_flag_reads_back(self.hidden);
        lemma_attrs_read_back(a, slots, 3);
        lemma_attrs_read_back(a, slots, 4);
    }
}

/// Strict mode knows the name a [`DirectParameter`] is written with, and checks its
/// `requires-access` attribute against a closed set.
proof fn lemma_direct_parameter_strict_name()
    ensures
        known_names().contains("direct-parameter"@),
        closed_rule("direct-parameter"@) == Some(("requires-access"@, rw_values())),
{
    reveal_strlit("direct-parameter");
    reveal_strlit("accessor");
    assert("direct-parameter"@.len() != "accessor"@.len());
    reveal_strlit("access-group");
    assert("direct-parameter"@.len() != "access-group"@.len());
    reveal_strlit("cocoa");
    assert("direct-parameter"@.len() != "cocoa"@.len());
    reveal_strlit("contents");
    assert("direct-parameter"@.len() != "contents"@.len());
    assert(known_names()[8] == "direct-parameter"@);
}

impl StrictSafe for DirectParameter {
    open spec fn element_name() -> Seq<char> {
        "direct-parameter"@
    }

    open spec fn canonical(self) -> bool {
        &&& access_canonical(self.requires_access)
        &&& all_canonical(self.types@)
        &&& all_canonical(self.documentation@)
    }

    proof fn lemma_passes_strict(self, evs: Seq<EventView>, i: int) {
        let slots = direct_parameter_slots(self);
        lemma_direct_parameter_names(self);
        lemma_direct_parameter_strict_name();
        lemma_access_allowed(self.requires_access);
        lemma_closed_attribute_passes(tag_attrs(evs[i]), slots, 3, rw_values());
        let p0 = i + 1;
        lemma_many_pass_strict(self.types@, evs, p0);
        let p1 = p0 + many_span(self.types@);
        lemma_many_pass_strict(self.documentation@, evs, p1);
        let p2 = p1 + many_span(self.documentation@);
        lemma_tags_pass_strict(evs, i, "direct-parameter"@, slots, p2 - p0);
    }
}

/// A `<result>` element describing a command's return value.
///
/// Named `CommandResult` to avoid clashing with the prelude's `Result`.
#[derive(Debug, Clone, Hash, PartialEq, Eq)]
#[non_exhaustive]
pub struct CommandResult {
    /// Result value type (`type="…"`).
    pub ty: Option<String>,
    /// Optional human description (`description="…"`).
    pub description: Option<String>,
    /// `<type>` child elements (list/union expressions).
    pub types: Vec<TypeRef>,
    /// `<documentation>` child blocks (since OS X 10.10).
    pub documentation: Vec<Documentation>,
}

impl FromXml for CommandResult {
    open spec fn xml_ok(evs: Seq<EventView>, i: int) -> bool {
        let a = tag_attrs(evs[i]);
        let ks = children(evs, i);
        &&& node_ok(evs, i)
        &&& attr_value(a, "type"@) is Ok
        &&& attr_value(a, "description"@) is Ok
        &&& many_ok::<TypeRef>(evs, ks, "type"@)
        &&& many_ok::<Documentation>(evs, ks, "documentation"@)
    }

    open spec fn xml_rel(self, evs: Seq<EventView>, i: int) -> bool {
        let a = tag_attrs(evs[i]);
        let ks = children(evs, i);
        &&& text_of(self.ty) == opt_value(a, "type"@)
        &&& text_of(self.description) == opt_value(a, "description"@)
        &&& many_rel(self.types, evs, ks, "type"@)
        &&& many_rel(self.documentation, evs, ks, "documentation"@)
    }

    fn from_xml(evs: &Vec<XmlEvent>, i: usize) -> (r: Result<Self, Error>) {
        let ks = readable_children(evs, i)?;
        let a = attrs_at(evs, i);
        let ty = attribute(a, "type")?;
        let description = attribute(a, "description")?;
        let types = many::<TypeRef>(evs, &ks, "type")?;
        let documentation = many::<Documentation>(evs, &ks, "documentation")?;
        Ok(CommandResult { ty, description, types, documentation })
    }
}

impl ToXml for CommandResult {
    open spec fn xml_text(self, tag: Seq<char>) -> Seq<char> {
        element_xml(
            tag,
            opt_attr_text("type"@, self.ty) +
                opt_attr_text("description"@, self.description),
            many_text(self.types@, "type"@) +
                many_text(self.documentation@, "documentation"@),
        )
    }

    fn write_xml(&self, tag: &str, out: &mut String) {
        let mut attrs = String::new();
        push_opt_attr(&mut attrs, "type", &self.ty);
        assert(attrs@ =~= opt_attr_text("type"@, self.ty));
        push_opt_attr(&mut attrs, "description", &self.description);
        let mut body = String::new();
        write_many(&self.types, "type", &mut body);
        assert(body@ =~= many_text(self.types@, "type"@));
        write_many(&self.documentation, "documentation", &mut body);
        write_element(out, tag, &attrs, &body);
    }
}

/// The attribute slots written for a [`CommandResult`].
pub open spec fn command_result_slots(x: CommandResult) -> Seq<(Seq<char>, Option<Seq<char>>)> {
    seq![
        opt_slot("type"@, x.ty),
        opt_slot("description"@, x.description),
    ]
}

/// The attribute keys of a [`CommandResult`] are distinct, and so are the names of
/// its child elements.
proof fn lemma_command_result_names(x: CommandResult)
    ensures
        keys_distinct(command_result_slots(x)),
        "type"@ != "documentation"@,
{
    reveal_strlit("description");
    reveal_strlit("type");
    assert("type"@.len() != "description"@.len());
    reveal_strlit("documentation");
    assert("type"@.len() != "documentation"@.len());
}

impl ReadsBack for CommandResult {
    open spec fn event_span(self) -> int {
        element_span(many_span(self.types@) + many_span(self.documentation@))
    }

    open spec fn spelled(self, evs: Seq<EventView>, i: int, tag: Seq<char>) -> bool {
        &&& element_spelled(evs, i, tag, command_result_slots(self), many_span(self.types@) + many_span(self.documentation@))
        &&& many_spelled(self.types@, evs, i + 1, "type"@)
        &&& many_spelled(self.documentation@, evs, i + 1 + many_span(self.types@), "documentation"@)
    }

    open spec fn writable(self) -> bool {
        &&& all_writable(self.types@)
        &&& all_writable(self.documentation@)
    }

    #[verifier::spinoff_prover]
    #[verifier::rlimit(100)]
    proof fn lemma_reads_back(self, evs: Seq<EventView>, i: int, tag: Seq<char>) {
        let slots = command_result_slots(self);
        lemma_command_result_names(self);
        let p0 = i + 1;
        let k0: Seq<int> = seq![];
        lemma_decode_empty(evs);
        assert(kids_from(evs, p0) =~= k0 + kids_from(evs, p0));
        let g0 = self.types@;
        lemma_many_reads_back(g0, evs, p0, "type"@);
        let s0 = many_starts(g0, p0);
        let p1 = p0 + many_span(g0);
        let k1 = k0 + s0;
        lemma_seq_assoc(k0, s0, kids_from(evs, p1));
        lemma_starts_tagged(g0, evs, p0, "type"@);
        lemma_tagged_decode(evs, s0, "type"@);
        lemma_decode_append(evs, k0, s0);
        let g1 = self.documentation@;
        lemma_many_reads_back(g1, evs, p1, "documentation"@);
        let s1 = many_starts(g1, p1);
        let p2 = p1 + many_span(g1);
        let k2 = k1 + s1;
        lemma_seq_assoc(k1, s1, kids_from(evs, p2));
        lemma_starts_tagged(g1, evs, p1, "documentation"@);
        lemma_tagged_decode(evs, s1, "documentation"@);
        lemma_decode_append(evs, k1, s1);
        let n = p2 - p0;
        assert(forall|close: Seq<u8>| #![trigger content_end(evs, p0, close)] content_end(evs, p0, close) == content_end(evs, p0 + n, close));
        lemma_element_tags(evs, i, tag, slots, n, k2);
        lemma_named_extend(evs, k0, s0, "type"@, "type"@);
        lemma_named_extend(evs, k1, s1, "documentation"@, "type"@);
        assert(k0 + s0 =~= s0);
        lemma_named_extend(evs, k0, s0, "type"@, "documentation"@);
        lemma_named_extend(evs, k1, s1, "documentation"@, "documentation"@);
        assert(k0 + s1 =~= s1);
        lemma_decode_clean(evs, k2);
        let a = tag_attrs(evs[i]);
        lemma_attrs_read_back(a, slots, 0);
        lemma_attrs_read_back(a, slots, 1);
    }
}

/// Strict mode knows the name a [`CommandResult`] is written with, and checks none
/// of its attributes against a closed set.
proof fn lemma_command_result_strict_name()
    ensures
        known_names().contains("result"@),
        closed_rule("result"@) is None,
{
    reveal_strlit("result");
    reveal_strlit("accessor");
    assert("result"@.len() != "accessor"@.len());
    reveal_strlit("access-group");
    assert("result"@.len() != "access-group"@.len());
    reveal_strlit("cocoa");
    assert("result"@.len() != "cocoa"@.len());
    reveal_strlit("contents");
    assert("result"@.len() != "contents"@.len());
    reveal_strlit("direct-parameter");
    assert("result"@.len() != "direct-parameter"@.len());
    reveal_strlit("element");
    assert("result"@.len() != "element"@.len());
    reveal_strlit("parameter");
    assert("result"@.len() != "parameter"@.len());
    reveal_strlit("property");
    assert("result"@.len() != "property"@.len());
    assert(known_names()[19] == "result"@);
}

impl StrictSafe for CommandResult {
    open spec fn element_name() -> Seq<char> {
        "result"@
    }

    open spec fn canonical(self) -> bool {
        &&& all_canonical(self.types@)
        &&& all_canonical(self.documentation@)
    }

    proof fn lemma_passes_strict(self, evs: Seq<EventView>, i: int) {
        let slots = command_result_slots(self);
        lemma_command_result_names(self);
        lemma_command_result_strict_name();
        let p0 = i + 1;
        lemma_many_pass_strict(self.types@, evs, p0);
        let p1 = p0 + many_span(self.types@);
        lemma_many_pass_strict(self.documentation@, evs, p1);
        let p2 = p1 + many_span(self.documentation@);
        lemma_tags_pass_strict(evs, i, "result"@, slots, p2 - p0);
    }
}
/// What the `(yes | no)` attributes of an element give the [`Command`] read
/// from it: `yes` reads as set, `no` and an absent attribute as not set,
/// and any other text leaves the element unreadable.
pub proof fn lemma_command_flags(x: Command, evs: Seq<EventView>, i: int)
    requires
        x.xml_rel(evs, i),
    ensures
        crate::xmlmap::attr_value(tag_attrs(evs[i]), "hidden"@) == Ok::<Option<Seq<char>>, ()>(Some("yes"@)) ==> x.hidden,
        crate::xmlmap::attr_value(tag_attrs(evs[i]), "hidden"@) == Ok::<Option<Seq<char>>, ()>(Some("no"@)) ==> !x.hidden,
        crate::xmlmap::attr_value(tag_attrs(evs[i]), "hidden"@) == Ok::<Option<Seq<char>>, ()>(None) ==> !x.hidden,
        (crate::xmlmap::attr_value(tag_attrs(evs[i]), "hidden"@) matches Ok(Some(t)) && t != "yes"@ && t != "no"@) ==> !Command::xml_ok(evs, i),
{
    crate::xmlmap::lemma_flag_field(tag_attrs(evs[i]), "hidden"@, x.hidden);
    crate::xmlmap::lemma_flag_refused(tag_attrs(evs[i]), "hidden"@);
}

/// What the `(yes | no)` attributes of an element give the [`Event`] read
/// from it: `yes` reads as set, `no` and an absent attribute as not set,
/// and any other text leaves the element unreadable.
pub proof fn lemma_event_flags(x: Event, evs: Seq<EventView>, i: int)
    requires
        x.xml_rel(evs, i),
    ensures
        crate::xmlmap::attr_value(tag_attrs(evs[i]), "hidden"@) == Ok::<Option<Seq<char>>, ()>(Some("yes"@)) ==> x.hidden,
        crate::xmlmap::attr_value(tag_attrs(evs[i]), "hidden"@) == Ok::<Option<Seq<char>>, ()>(Some("no"@)) ==> !x.hidden,
        crate::xmlmap::attr_value(tag_attrs(evs[i]), "hidden"@) == Ok::<Option<Seq<char>>, ()>(None) ==> !x.hidden,
        (crate::xmlmap::attr_value(tag_attrs(evs[i]), "hidden"@) matches Ok(Some(t)) && t != "yes"@ && t != "no"@) ==> !Event::xml_ok(evs, i),
{
    crate::xmlmap::lemma_flag_field(tag_attrs(evs[i]), "hidden"@, x.hidden);
    crate::xmlmap::lemma_flag_refused(tag_attrs(evs[i]), "hidden"@);
}

/// What the `(yes | no)` attributes of an element give the [`Parameter`] read
/// from it: `yes` reads as set, `no` and an absent attribute as not set,
/// and any other text leaves the element unreadable.
pub proof fn lemma_parameter_flags(x: Parameter, evs: Seq<EventView>, i: int)
    requires
        x.xml_rel(evs, i),
    ensures
        crate::xmlmap::attr_value(tag_attrs(evs[i]), "optional"@) == Ok::<Option<Seq<char>>, ()>(Some("yes"@)) ==> x.optional,
        crate::xmlmap::attr_value(tag_attrs(evs[i]), "optional"@) == Ok::<Option<Seq<char>>, ()>(Some("no"@)) ==> !x.optional,
        crate::xmlmap::attr_value(tag_attrs(evs[i]), "optional"@) == Ok::<Option<Seq<char>>, ()>(None) ==> !x.optional,
        crate::xmlmap::attr_value(tag_attrs(evs[i]), "hidden"@) == Ok::<Option<Seq<char>>, ()>(Some("yes"@)) ==> x.hidden,
        crate::xmlmap::attr_value(tag_attrs(evs[i]), "hidden"@) == Ok::<Option<Seq<char>>, ()>(Some("no"@)) ==> !x.hidden,
        crate::xmlmap::attr_value(tag_attrs(evs[i]), "hidden"@) == Ok::<Option<Seq<char>>, ()>(None) ==> !x.hidden,
        (crate::xmlmap::attr_value(tag_attrs(evs[i]), "optional"@) matches Ok(Some(t)) && t != "yes"@ && t != "no"@) ==> !Parameter::xml_ok(evs, i),
        (crate::xmlmap::attr_value(tag_attrs(evs[i]), "hidden"@) matches Ok(Some(t)) && t != "yes"@ && t != "no"@) ==> !Parameter::xml_ok(evs, i),
{
    crate::xmlmap::lemma_flag_field(tag_attrs(evs[i]), "optional"@, x.optional);
    crate::xmlmap::lemma_flag_field(tag_attrs(evs[i]), "hidden"@, x.hidden);
    crate::xmlmap::lemma_flag_refused(tag_attrs(evs[i]), "optional"@);
    crate::xmlmap::lemma_flag_refused(tag_attrs(evs[i]), "hidden"@);
}

/// What the `(yes | no)` attributes of an element give the [`DirectParameter`] read
/// from it: `yes` reads as set, `no` and an absent attribute as not set,
/// and any other text leaves the element unreadable.
pub proof fn lemma_direct_parameter_flags(x: DirectParameter, evs: Seq<EventView>, i: int)
    requires
        x.xml_rel(evs, i),
    ensures
        crate::xmlmap::attr_value(tag_attrs(evs[i]), "optional"@) == Ok::<Option<Seq<char>>, ()>(Some("yes"@)) ==> x.optional,
        crate::xmlmap::attr_value(tag_attrs(evs[i]), "optional"@) == Ok::<Option<Seq<char>>, ()>(Some("no"@)) ==> !x.optional,
        crate::xmlmap::attr_value(tag_attrs(evs[i]), "optional"@) == Ok::<Option<Seq<char>>, ()>(None) ==> !x.optional,
        crate::xmlmap::attr_value(tag_attrs(evs[i]), "hidden"@) == Ok::<Option<Seq<char>>, ()>(Some("yes"@)) ==> x.hidden,
        crate::xmlmap::attr_value(tag_attrs(evs[i]), "hidden"@) == Ok::<Option<Seq<char>>, ()>(Some("no"@)) ==> !x.hidden,
        crate::xmlmap::attr_value(tag_attrs(evs[i]), "hidden"@) == Ok::<Option<Seq<char>>, ()>(None) ==> !x.hidden,
        (crate::xmlmap::attr_value(tag_attrs(evs[i]), "optional"@) matches Ok(Some(t)) && t != "yes"@ && t != "no"@) ==> !DirectParameter::xml_ok(evs, i),
        (crate::xmlmap::attr_value(tag_attrs(evs[i]), "hidden"@) matches Ok(Some(t)) && t != "yes"@ && t != "no"@) ==> !DirectParameter::xml_ok(evs, i),
{
    crate::xmlmap::lemma_flag_field(tag_attrs(evs[i]), "optional"@, x.optional);
    crate::xmlmap::lemma_flag_field(tag_attrs(evs[i]), "hidden"@, x.hidden);
    crate::xmlmap::lemma_flag_refused(tag_attrs(evs[i]), "optional"@);
    crate::xmlmap::lemma_flag_refused(tag_attrs(evs[i]), "hidden"@);
}

/// The attribute text written for a [`Command`] is that of its slots.
proof fn lemma_command_attribute_text(x: Command)
    ensures
        crate::readback::slots_text(command_slots(x)) == attr_text("name"@, x.name@) + attr_text("code"@, x.code@) + opt_attr_text("id"@, x.id) + opt_attr_text("description"@, x.description) + flag_attr_text("hidden"@, x.hidden),
{
    let s = command_slots(x);
    assert(s.len() == 5);
    crate::readback::lemma_slots_text_step(s, 0);
    assert(crate::readback::slot_text(s[0]) =~= attr_text("name"@, x.name@));
    crate::readback::lemma_slots_text_step(s, 1);
    assert(crate::readback::slot_text(s[1]) =~= attr_text("code"@, x.code@));
    crate::readback::lemma_slots_text_step(s, 2);
    assert(crate::readback::slot_text(s[2]) =~= opt_attr_text("id"@, x.id));
    crate::readback::lemma_slots_text_step(s, 3);
    assert(crate::readback::slot_text(s[3]) =~= opt_attr_text("description"@, x.description));
    crate::readback::lemma_slots_text_step(s, 4);
    assert(crate::readback::slot_text(s[4]) =~= flag_attr_text("hidden"@, x.hidden));
    assert(s.take(0) =~= Seq::<(Seq<char>, Option<Seq<char>>)>::empty());
    assert(s.take(5) =~= s);
    assert(crate::readback::slots_text(s) =~= attr_text("name"@, x.name@) + attr_text("code"@, x.code@) + opt_attr_text("id"@, x.id) + opt_attr_text("description"@, x.description) + flag_attr_text("hidden"@, x.hidden));
}

/// The element written for a [`Command`] carries exactly the attributes that
/// reading it back takes, [`command_slots`]: one for each slot that holds a value, in
/// slot order.
pub proof fn lemma_command_written_attributes(x: Command, tag: Seq<char>)
    ensures
        crate::readback::written_with_attributes(x.xml_text(tag), tag, command_slots(x)),
{
    lemma_command_attribute_text(x);
    crate::readback::lemma_element_attributes(tag, attr_text("name"@, x.name@) + attr_text("code"@, x.code@) + opt_attr_text("id"@, x.id) + opt_attr_text("description"@, x.description) + flag_attr_text("hidden"@, x.hidden), one_text(x.cocoa, "cocoa"@) +
                many_text(x.access_groups@, "access-group"@) +
                many_text(x.synonyms@, "synonym"@) +
                many_text(x.documentation@, "documentation"@) +
                one_text(x.direct_parameter, "direct-parameter"@) +
                many_text(x.parameters@, "parameter"@) +
                one_text(x.result, "result"@) +
                many_text(x.xrefs@, "xref"@), command_slots(x));
}

impl crate::readback::WritesText for Command {
    #[verifier::spinoff_prover]
    #[verifier::rlimit(100)]
    proof fn lemma_written_text(self, evs: Seq<EventView>, i: int, tag: Seq<char>) {
        let slots = command_slots(self);
        let n = many_span(opt_seq(self.cocoa)) + many_span(self.access_groups@) + many_span(self.synonyms@) + many_span(self.documentation@) + many_span(opt_seq(self.direct_parameter)) + many_span(self.parameters@) + many_span(opt_seq(self.result)) + many_span(self.xrefs@);
        let p0 = i + 1;
        crate::readback::lemma_one_text(self.cocoa, "cocoa"@);
        crate::readback::lemma_many_text(opt_seq(self.cocoa), evs, p0, "cocoa"@);
        let p1 = p0 + many_span(opt_seq(self.cocoa));
        crate::readback::lemma_many_text(self.access_groups@, evs, p1, "access-group"@);
        let p2 = p1 + many_span(self.access_groups@);
        crate::readback::lemma_many_text(self.synonyms@, evs, p2, "synonym"@);
        let p3 = p2 + many_span(self.synonyms@);
        crate::readback::lemma_many_text(self.documentation@, evs, p3, "documentation"@);
        let p4 = p3 + many_span(self.documentation@);
        crate::readback::lemma_one_text(self.direct_parameter, "direct-parameter"@);
        crate::readback::lemma_many_text(opt_seq(self.direct_parameter), evs, p4, "direct-parameter"@);
        let p5 = p4 + many_span(opt_seq(self.direct_parameter));
        crate::readback::lemma_many_text(self.parameters@, evs, p5, "parameter"@);
        let p6 = p5 + many_span(self.parameters@);
        crate::readback::lemma_one_text(self.result, "result"@);
        crate::readback::lemma_many_text(opt_seq(self.result), evs, p6, "result"@);
        let p7 = p6 + many_span(opt_seq(self.result));
        crate::readback::lemma_many_text(self.xrefs@, evs, p7, "xref"@);
        let p8 = p7 + many_span(self.xrefs@);
        assert(p8 == i + 1 + n);
        crate::readback::lemma_events_text_split(evs, p0, p1, p2);
        crate::readback::lemma_events_text_split(evs, p0, p2, p3);
        crate::readback::lemma_events_text_split(evs, p0, p3, p4);
        crate::readback::lemma_events_text_split(evs, p0, p4, p5);
        crate::readback::lemma_events_text_split(evs, p0, p5, p6);
        crate::readback::lemma_events_text_split(evs, p0, p6, p7);
        crate::readback::lemma_events_text_split(evs, p0, p7, p8);
        lemma_command_attribute_text(self);
        crate::readback::lemma_element_text(evs, i, tag, slots, n, one_text(self.cocoa, "cocoa"@) +
                many_text(self.access_groups@, "access-group"@) +
                many_text(self.synonyms@, "synonym"@) +
                many_text(self.documentation@, "documentation"@) +
                one_text(self.direct_parameter, "direct-parameter"@) +
                many_text(self.parameters@, "parameter"@) +
                one_text(self.result, "result"@) +
                many_text(self.xrefs@, "xref"@));
    }
}

/// The attribute text written for a [`Event`] is that of its slots.
proof fn lemma_event_attribute_text(x: Event)
    ensures
        crate::readback::slots_text(event_slots(x)) == attr_text("name"@, x.name@) + attr_text("code"@, x.code@) + opt_attr_text("id"@, x.id) + opt_attr_text("description"@, x.description) + flag_attr_text("hidden"@, x.hidden),
{
    let s = event_slots(x);
    assert(s.len() == 5);
    crate::readback::lemma_slots_text_step(s, 0);
    assert(crate::readback::slot_text(s[0]) =~= attr_text("name"@, x.name@));
    crate::readback::lemma_slots_text_step(s, 1);
    assert(crate::readback::slot_text(s[1]) =~= attr_text("code"@, x.code@));
    crate::readback::lemma_slots_text_step(s, 2);
    assert(crate::readback::slot_text(s[2]) =~= opt_attr_text("id"@, x.id));
    crate::readback::lemma_slots_text_step(s, 3);
    assert(crate::readback::slot_text(s[3]) =~= opt_attr_text("description"@, x.description));
    crate::readback::lemma_slots_text_step(s, 4);
    assert(crate::readback::slot_text(s[4]) =~= flag_attr_text("hidden"@, x.hidden));
    assert(s.take(0) =~= Seq::<(Seq<char>, Option<Seq<char>>)>::empty());
    assert(s.take(5) =~= s);
    assert(crate::readback::slots_text(s) =~= attr_text("name"@, x.name@) + attr_text("code"@, x.code@) + opt_attr_text("id"@, x.id) + opt_attr_text("description"@, x.description) + flag_attr_text("hidden"@, x.hidden));
}

/// The element written for a [`Event`] carries exactly the attributes that
/// reading it back takes, [`event_slots`]: one for each slot that holds a value, in
/// slot order.
pub proof fn lemma_event_written_attributes(x: Event, tag: Seq<char>)
    ensures
        crate::readback::written_with_attributes(x.xml_text(tag), tag, event_slots(x)),
{
    lemma_event_attribute_text(x);
    crate::readback::lemma_element_attributes(tag, attr_text("name"@, x.name@) + attr_text("code"@, x.code@) + opt_attr_text("id"@, x.id) + opt_attr_text("description"@, x.description) + flag_attr_text("hidden"@, x.hidden), one_text(x.cocoa, "cocoa"@) +
                many_text(x.synonyms@, "synonym"@) +
                many_text(x.documentation@, "documentation"@) +
                one_text(x.direct_parameter, "direct-parameter"@) +
                many_text(x.parameters@, "parameter"@) +
                one_text(x.result, "result"@) +
                many_text(x.xrefs@, "xref"@), event_slots(x));
}

impl crate::readback::WritesText for Event {
    #[verifier::spinoff_prover]
    #[verifier::rlimit(100)]
    proof fn lemma_written_text(self, evs: Seq<EventView>, i: int, tag: Seq<char>) {
        let slots = event_slots(self);
        let n = many_span(opt_seq(self.cocoa)) + many_span(self.synonyms@) + many_span(self.documentation@) + many_span(opt_seq(self.direct_parameter)) + many_span(self.parameters@) + many_span(opt_seq(self.result)) + many_span(self.xrefs@);
        let p0 = i + 1;
        crate::readback::lemma_one_text(self.cocoa, "cocoa"@);
        crate::readback::lemma_many_text(opt_seq(self.cocoa), evs, p0, "cocoa"@);
        let p1 = p0 + many_span(opt_seq(self.cocoa));
        crate::readback::lemma_many_text(self.synonyms@, evs, p1, "synonym"@);
        let p2 = p1 + many_span(self.synonyms@);
        crate::readback::lemma_many_text(self.documentation@, evs, p2, "documentation"@);
        let p3 = p2 + many_span(self.documentation@);
        crate::readback::lemma_one_text(self.direct_parameter, "direct-parameter"@);
        crate::readback::lemma_many_text(opt_seq(self.direct_parameter), evs, p3, "direct-parameter"@);
        let p4 = p3 + many_span(opt_seq(self.direct_parameter));
        crate::readback::lemma_many_text(self.parameters@, evs, p4, "parameter"@);
        let p5 = p4 + many_span(self.parameters@);
        crate::readback::lemma_one_text(self.result, "result"@);
        crate::readback::lemma_many_text(opt_seq(self.result), evs, p5, "result"@);
        let p6 = p5 + many_span(opt_seq(self.result));
        crate::readback::lemma_many_text(self.xrefs@, evs, p6, "xref"@);
        let p7 = p6 + many_span(self.xrefs@);
        assert(p7 == i + 1 + n);
        crate::readback::lemma_events_text_split(evs, p0, p1, p2);
        crate::readback::lemma_events_text_split(evs, p0, p2, p3);
        crate::readback::lemma_events_text_split(evs, p0, p3, p4);
        crate::readback::lemma_events_text_split(evs, p0, p4, p5);
        crate::readback::lemma_events_text_split(evs, p0, p5, p6);
        crate::readback::lemma_events_text_split(evs, p0, p6, p7);
        lemma_event_attribute_text(self);
        crate::readback::lemma_element_text(evs, i, tag, slots, n, one_text(self.cocoa, "cocoa"@) +
                many_text(self.synonyms@, "synonym"@) +
                many_text(self.documentation@, "documentation"@) +
                one_text(self.direct_parameter, "direct-parameter"@) +
                many_text(self.parameters@, "parameter"@) +
                one_text(self.result, "result"@) +
                many_text(self.xrefs@, "xref"@));
    }
}

/// The attribute text written for a [`Parameter`] is that of its slots.
proof fn lemma_parameter_attribute_text(x: Parameter)
    ensures
        crate::readback::slots_text(parameter_slots(x)) == attr_text("name"@, x.name@) + attr_text("code"@, x.code@) + opt_attr_text("type"@, x.ty) + flag_attr_text("optional"@, x.optional) + flag_attr_text("hidden"@, x.hidden) + access_attr_text("requires-access"@, x.requires_access) + opt_attr_text("description"@, x.description),
{
    let s = parameter_slots(x);
    assert(s.len() == 7);
    crate::readback::lemma_slots_text_step(s, 0);
    assert(crate::readback::slot_text(s[0]) =~= attr_text("name"@, x.name@));
    crate::readback::lemma_slots_text_step(s, 1);
    assert(crate::readback::slot_text(s[1]) =~= attr_text("code"@, x.code@));
    crate::readback::lemma_slots_text_step(s, 2);
    assert(crate::readback::slot_text(s[2]) =~= opt_attr_text("type"@, x.ty));
    crate::readback::lemma_slots_text_step(s, 3);
    assert(crate::readback::slot_text(s[3]) =~= flag_attr_text("optional"@, x.optional));
    crate::readback::lemma_slots_text_step(s, 4);
    assert(crate::readback::slot_text(s[4]) =~= flag_attr_text("hidden"@, x.hidden));
    crate::readback::lemma_slots_text_step(s, 5);
    assert(crate::readback::slot_text(s[5]) =~= access_attr_text("requires-access"@, x.requires_access));
    crate::readback::lemma_slots_text_step(s, 6);
    assert(crate::readback::slot_text(s[6]) =~= opt_attr_text("description"@, x.description));
    assert(s.take(0) =~= Seq::<(Seq<char>, Option<Seq<char>>)>::empty());
    assert(s.take(7) =~= s);
    assert(crate::readback::slots_text(s) =~= attr_text("name"@, x.name@) + attr_text("code"@, x.code@) + opt_attr_text("type"@, x.ty) + flag_attr_text("optional"@, x.optional) + flag_attr_text("hidden"@, x.hidden) + access_attr_text("requires-access"@, x.requires_access) + opt_attr_text("description"@, x.description));
}

/// The element written for a [`Parameter`] carries exactly the attributes that
/// reading it back takes, [`parameter_slots`]: one for each slot that holds a value, in
/// slot order.
pub proof fn lemma_parameter_written_attributes(x: Parameter, tag: Seq<char>)
    ensures
        crate::readback::written_with_attributes(x.xml_text(tag), tag, parameter_slots(x)),
{
    lemma_parameter_attribute_text(x);
    crate::readback::lemma_element_attributes(tag, attr_text("name"@, x.name@) + attr_text("code"@, x.code@) + opt_attr_text("type"@, x.ty) + flag_attr_text("optional"@, x.optional) + flag_attr_text("hidden"@, x.hidden) + access_attr_text("requires-access"@, x.requires_access) + opt_attr_text("description"@, x.description), one_text(x.cocoa, "cocoa"@) +
                many_text(x.types@, "type"@) +
                many_text(x.documentation@, "documentation"@), parameter_slots(x));
}

impl crate::readback::WritesText for Parameter {
    proof fn lemma_written_text(self, evs: Seq<EventView>, i: int, tag: Seq<char>) {
        let slots = parameter_slots(self);
        let n = many_span(opt_seq(self.cocoa)) + many_span(self.types@) + many_span(self.documentation@);
        let p0 = i + 1;
        crate::readback::lemma_one_text(self.cocoa, "cocoa"@);
        crate::readback::lemma_many_text(opt_seq(self.cocoa), evs, p0, "cocoa"@);
        let p1 = p0 + many_span(opt_seq(self.cocoa));
        crate::readback::lemma_many_text(self.types@, evs, p1, "type"@);
        let p2 = p1 + many_span(self.types@);
        crate::readback::lemma_many_text(self.documentation@, evs, p2, "documentation"@);
        let p3 = p2 + many_span(self.documentation@);
        assert(p3 == i + 1 + n);
        crate::readback::lemma_events_text_split(evs, p0, p1, p2);
        crate::readback::lemma_events_text_split(evs, p0, p2, p3);
        lemma_parameter_attribute_text(self);
        crate::readback::lemma_element_text(evs, i, tag, slots, n, one_text(self.cocoa, "cocoa"@) +
                many_text(self.types@, "type"@) +
                many_text(self.documentation@, "documentation"@));
    }
}

/// The attribute text written for a [`DirectParameter`] is that of its slots.
proof fn lemma_direct_parameter_attribute_text(x: DirectParameter)
    ensures
        crate::readback::slots_text(direct_parameter_slots(x)) == opt_attr_text("type"@, x.ty) + flag_attr_text("optional"@, x.optional) + flag_attr_text("hidden"@, x.hidden) + access_attr_text("requires-access"@, x.requires_access) + opt_attr_text("description"@, x.description),
{
    let s = direct_parameter_slots(x);
    assert(s.len() == 5);
    crate::readback::lemma_slots_text_step(s, 0);
    assert(crate::readback::slot_text(s[0]) =~= opt_attr_text("type"@, x.ty));
    crate::readback::lemma_slots_text_step(s, 1);
    assert(crate::readback::slot_text(s[1]) =~= flag_attr_text("optional"@, x.optional));
    crate::readback::lemma_slots_text_step(s, 2);
    assert(crate::readback::slot_text(s[2]) =~= flag_attr_text("hidden"@, x.hidden));
    crate::readback::lemma_slots_text_step(s, 3);
    assert(crate::readback::slot_text(s[3]) =~= access_attr_text("requires-access"@, x.requires_access));
    crate::readback::lemma_slots_text_step(s, 4);
    assert(crate::readback::slot_text(s[4]) =~= opt_attr_text("description"@, x.description));
    assert(s.take(0) =~= Seq::<(Seq<char>, Option<Seq<char>>)>::empty());
    assert(s.take(5) =~= s);
    assert(crate::readback::slots_text(s) =~= opt_attr_text("type"@, x.ty) + flag_attr_text("optional"@, x.optional) + flag_attr_text("hidden"@, x.hidden) + access_attr_text("requires-access"@, x.requires_access) + opt_attr_text("description"@, x.description));
}

/// The element written for a [`DirectParameter`] carries exactly the attributes that
/// reading it back takes, [`direct_parameter_slots`]: one for each slot that holds a value, in
/// slot order.
pub proof fn lemma_direct_parameter_written_attributes(x: DirectParameter, tag: Seq<char>)
    ensures
        crate::readback::written_with_attributes(x.xml_text(tag), tag, direct_parameter_slots(x)),
{
    lemma_direct_parameter_attribute_text(x);
    crate::readback::lemma_element_attributes(tag, opt_attr_text("type"@, x.ty) + flag_attr_text("optional"@, x.optional) + flag_attr_text("hidden"@, x.hidden) + access_attr_text("requires-access"@, x.requires_access) + opt_attr_text("description"@, x.description), many_text(x.types@, "type"@) +
                many_text(x.documentation@, "documentation"@), direct_parameter_slots(x));
}

impl crate::readback::WritesText for DirectParameter {
    proof fn lemma_written_text(self, evs: Seq<EventView>, i: int, tag: Seq<char>) {
        let slots = direct_parameter_slots(self);
        let n = many_span(self.types@) + many_span(self.documentation@);
        let p0 = i + 1;
        crate::readback::lemma_many_text(self.types@, evs, p0, "type"@);
        let p1 = p0 + many_span(self.types@);
        crate::readback::lemma_many_text(self.documentation@, evs, p1, "documentation"@);
        let p2 = p1 + many_span(self.documentation@);
        assert(p2 == i + 1 + n);
        crate::readback::lemma_events_text_split(evs, p0, p1, p2);
        lemma_direct_parameter_attribute_text(self);
        crate::readback::lemma_element_text(evs, i, tag, slots, n, many_text(self.types@, "type"@) +
                many_text(self.documentation@, "documentation"@));
    }
}

/// The attribute text written for a [`CommandResult`] is that of its slots.
proof fn lemma_command_result_attribute_text(x: CommandResult)
    ensures
        crate::readback::slots_text(command_result_slots(x)) == opt_attr_text("type"@, x.ty) + opt_attr_text("description"@, x.description),
{
    let s = command_result_slots(x);
    assert(s.len() == 2);
    crate::readback::lemma_slots_text_step(s, 0);
    assert(crate::readback::slot_text(s[0]) =~= opt_attr_text("type"@, x.ty));
    crate::readback::lemma_slots_text_step(s, 1);
    assert(crate::readback::slot_text(s[1]) =~= opt_attr_text("description"@, x.description));
    assert(s.take(0) =~= Seq::<(Seq<char>, Option<Seq<char>>)>::empty());
    assert(s.take(2) =~= s);
    assert(crate::readback::slots_text(s) =~= opt_attr_text("type"@, x.ty) + opt_attr_text("description"@, x.description));
}

/// The element written for a [`CommandResult`] carries exactly the attributes that
/// reading it back takes, [`command_result_slots`]: one for each slot that holds a value, in
/// slot order.
pub proof fn lemma_command_result_written_attributes(x: CommandResult, tag: Seq<char>)
    ensures
        crate::readback::written_with_attributes(x.xml_text(tag), tag, command_result_slots(x)),
{
    lemma_command_result_attribute_text(x);
    crate::readback::lemma_element_attributes(tag, opt_attr_text("type"@, x.ty) + opt_attr_text("description"@, x.description), many_text(x.types@, "type"@) +
                many_text(x.documentation@, "documentation"@), command_result_slots(x));
}

impl crate::readback::WritesText for CommandResult {
    proof fn lemma_written_text(self, evs: Seq<EventView>, i: int, tag: Seq<char>) {
        let slots = command_result_slots(self);
        let n = many_span(self.types@) + many_span(self.documentation@);
        let p0 = i + 1;
        crate::readback::lemma_many_text(self.types@, evs, p0, "type"@);
        let p1 = p0 + many_span(self.types@);
        crate::readback::lemma_many_text(self.documentation@, evs, p1, "documentation"@);
        let p2 = p1 + many_span(self.documentation@);
        assert(p2 == i + 1 + n);
        crate::readback::lemma_events_text_split(evs, p0, p1, p2);
        lemma_command_result_attribute_text(self);
        crate::readback::lemma_element_text(evs, i, tag, slots, n, many_text(self.types@, "type"@) +
                many_text(self.documentation@, "documentation"@));
    }
}

impl crate::xmlmap::ReadsUniquely for Command {
    open spec fn same(self, other: Self) -> bool {
        &&& self.name@ == other.name@
        &&& self.code@ == other.code@
        &&& crate::xmlmap::text_of(self.id) == crate::xmlmap::text_of(other.id)
        &&& crate::xmlmap::text_of(self.description) == crate::xmlmap::text_of(other.description)
        &&& self.hidden == other.hidden
        &&& crate::xmlmap::opt_same(self.cocoa, other.cocoa)
        &&& crate::xmlmap::all_same(self.access_groups@, other.access_groups@)
        &&& crate::xmlmap::all_same(self.synonyms@, other.synonyms@)
        &&& crate::xmlmap::all_same(self.documentation@, other.documentation@)
        &&& crate::xmlmap::opt_same(self.direct_parameter, other.direct_parameter)
        &&& crate::xmlmap::all_same(self.parameters@, other.parameters@)
        &&& crate::xmlmap::opt_same(self.result, other.result)
        &&& crate::xmlmap::all_same(self.xrefs@, other.xrefs@)
    }

    proof fn lemma_reads_uniquely(self, other: Self, evs: Seq<EventView>, i: int) {
        let ks = crate::document::children(evs, i);
        crate::xmlmap::lemma_one_unique(self.cocoa, other.cocoa, evs, ks, "cocoa"@);
        crate::xmlmap::lemma_many_unique(self.access_groups, other.access_groups, evs, ks, "access-group"@);
        crate::xmlmap::lemma_many_unique(self.synonyms, other.synonyms, evs, ks, "synonym"@);
        crate::xmlmap::lemma_many_unique(self.documentation, other.documentation, evs, ks, "documentation"@);
        crate::xmlmap::lemma_one_unique(self.direct_parameter, other.direct_parameter, evs, ks, "direct-parameter"@);
        crate::xmlmap::lemma_many_unique(self.parameters, other.parameters, evs, ks, "parameter"@);
        crate::xmlmap::lemma_one_unique(self.result, other.result, evs, ks, "result"@);
        crate::xmlmap::lemma_many_unique(self.xrefs, other.xrefs, evs, ks, "xref"@);
    }
}

impl crate::xmlmap::ReadsUniquely for Event {
    open spec fn same(self, other: Self) -> bool {
        &&& self.name@ == other.name@
        &&& self.code@ == other.code@
        &&& crate::xmlmap::text_of(self.id) == crate::xmlmap::text_of(other.id)
        &&& crate::xmlmap::text_of(self.description) == crate::xmlmap::text_of(other.description)
        &&& self.hidden == other.hidden
        &&& crate::xmlmap::opt_same(self.cocoa, other.cocoa)
        &&& crate::xmlmap::all_same(self.synonyms@, other.synonyms@)
        &&& crate::xmlmap::all_same(self.documentation@, other.documentation@)
        &&& crate::xmlmap::opt_same(self.direct_parameter, other.direct_parameter)
        &&& crate::xmlmap::all_same(self.parameters@, other.parameters@)
        &&& crate::xmlmap::opt_same(self.result, other.result)
        &&& crate::xmlmap::all_same(self.xrefs@, other.xrefs@)
    }

    proof fn lemma_reads_uniquely(self, other: Self, evs: Seq<EventView>, i: int) {
        let ks = crate::document::children(evs, i);
        crate::xmlmap::lemma_one_unique(self.cocoa, other.cocoa, evs, ks, "cocoa"@);
        crate::xmlmap::lemma_many_unique(self.synonyms, other.synonyms, evs, ks, "synonym"@);
        crate::xmlmap::lemma_many_unique(self.documentation, other.documentation, evs, ks, "documentation"@);
        crate::xmlmap::lemma_one_unique(self.direct_parameter, other.direct_parameter, evs, ks, "direct-parameter"@);
        crate::xmlmap::lemma_many_unique(self.parameters, other.parameters, evs, ks, "parameter"@);
        crate::xmlmap::lemma_one_unique(self.result, other.result, evs, ks, "result"@);
        crate::xmlmap::lemma_many_unique(self.xrefs, other.xrefs, evs, ks, "xref"@);
    }
}

impl crate::xmlmap::ReadsUniquely for Parameter {
    open spec fn same(self, other: Self) -> bool {
        &&& self.name@ == other.name@
        &&& self.code@ == other.code@
        &&& crate::xmlmap::text_of(self.ty) == crate::xmlmap::text_of(other.ty)
        &&& self.optional == other.optional
        &&& self.hidden == other.hidden
        &&& crate::metadata::access_same(self.requires_access, other.requires_access)
        &&& crate::xmlmap::text_of(self.description) == crate::xmlmap::text_of(other.description)
        &&& crate::xmlmap::opt_same(self.cocoa, other.cocoa)
        &&& crate::xmlmap::all_same(self.types@, other.types@)
        &&& crate::xmlmap::all_same(self.documentation@, other.documentation@)
    }

    proof fn lemma_reads_uniquely(self, other: Self, evs: Seq<EventView>, i: int) {
        let ks = crate::document::children(evs, i);
        crate::xmlmap::lemma_one_unique(self.cocoa, other.cocoa, evs, ks, "cocoa"@);
        crate::xmlmap::lemma_many_unique(self.types, other.types, evs, ks, "type"@);
        crate::xmlmap::lemma_many_unique(self.documentation, other.documentation, evs, ks, "documentation"@);
    }
}

impl crate::xmlmap::ReadsUniquely for DirectParameter {
    open spec fn same(self, other: Self) -> bool {
        &&& crate::xmlmap::text_of(self.ty) == crate::xmlmap::text_of(other.ty)
        &&& self.optional == other.optional
        &&& self.hidden == other.hidden
        &&& crate::metadata::access_same(self.requires_access, other.requires_access)
        &&& crate::xmlmap::text_of(self.description) == crate::xmlmap::text_of(other.description)
        &&& crate::xmlmap::all_same(self.types@, other.types@)
        &&& crate::xmlmap::all_same(self.documentation@, other.documentation@)
    }

    proof fn lemma_reads_uniquely(self, other: Self, evs: Seq<EventView>, i: int) {
        let ks = crate::document::children(evs, i);
        crate::xmlmap::lemma_many_unique(self.types, other.types, evs, ks, "type"@);
        crate::xmlmap::lemma_many_unique(self.documentation, other.documentation, evs, ks, "documentation"@);
    }
}

impl crate::xmlmap::ReadsUniquely for CommandResult {
    open spec fn same(self, other: Self) -> bool {
        &&& crate::xmlmap::text_of(self.ty) == crate::xmlmap::text_of(other.ty)
        &&& crate::xmlmap::text_of(self.description) == crate::xmlmap::text_of(other.description)
        &&& crate::xmlmap::all_same(self.types@, other.types@)
        &&& crate::xmlmap::all_same(self.documentation@, other.documentation@)
    }

    proof fn lemma_reads_uniquely(self, other: Self, evs: Seq<EventView>, i: int) {
        let ks = crate::document::children(evs, i);
        crate::xmlmap::lemma_many_unique(self.types, other.types, evs, ks, "type"@);
        crate::xmlmap::lemma_many_unique(self.documentation, other.documentation, evs, ks, "documentation"@);
    }
}

} // verus!
