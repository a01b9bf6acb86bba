//! The `<type>` child element used inside parameters, results, properties,
//! and similar sites to express type references.
//!
//! Distinct from `<value-type>` and `<record-type>` (which *declare* simple
//! types in a suite). A `<type>` element here is a *reference* to a primitive
//! or a previously declared user type, optionally marked as a list and
//! optionally containing nested `<type>` children for union expressions.

use vstd::prelude::*;

use crate::document::{children, ints, lemma_children_after, well_placed};
use crate::document::{content_end, elem_end, kids_from};
use crate::emit::{attr_text, element_xml, flag_attr_text, push_attr, push_flag_attr, write_element, ToXml};
use crate::readback::{
    all_tagged, element_span, element_spelled, flag_slot, keys_distinct, lemma_attrs_read_back,
    lemma_decode_clean, lemma_element_tags, lemma_named_append, lemma_tagged_decode,
    lemma_tags_pass_strict, req_slot, ReadsBack, StrictSafe,
};
use crate::strict::{closed_rule, known_names, strict_from};
use crate::xmlmap::tag_is;
use crate::yorn::lemma_flag_reads_back;
use crate::error::Error;
use crate::events::{tag_attrs, views, EventView, XmlEvent};
use crate::xmlmap::{
    attrs_at, flag, flag_value, lemma_named_placed, lemma_named_subset, named,
    named_positions, node_ok, readable_children, req_value, required, FromXml,
};

verus! {

/// A typed reference: the `<type>` child element.
///
/// The `type` attribute names either one of the documented primitives
/// (`any`, `text`, `integer`, `real`, `number`, `boolean`, `specifier`,
/// `location specifier`, `record`, `date`, `file`, `point`, `rectangle`,
/// `type`, `missing value`) or a user-declared class/enumeration/record-type/
/// value-type by name.
#[derive(Debug, Default, Hash, PartialEq, Eq)]
#[non_exhaustive]
pub struct TypeRef {
    /// `type="..."` — primitive name or user-declared type reference.
    pub ty: String,
    /// `list="yes|no"` — collection-of-`type` marker, `false` when absent.
    pub list: bool,
    /// `hidden="yes|no"`, `false` when absent.
    pub hidden: bool,
    /// Nested `<type>` children (union expressions).
    pub types: Vec<TypeRef>,
}

/// Whether the `<type>` element at `i` reads as a [`TypeRef`], nested
/// `<type>` children included.
pub open spec fn typeref_ok(evs: Seq<EventView>, i: int) -> bool
    decreases evs.len() - i,
{
    let a = tag_attrs(evs[i]);
    let n = named(evs, children(evs, i), "type"@);
    &&& node_ok(evs, i)
    &&& req_value(a, "type"@) is Some
    &&& flag_value(a, "list"@) is Ok
    &&& flag_value(a, "hidden"@) is Ok
    &&& forall|k: int|
        0 <= k < n.len() ==> i < #[trigger] n[k] <= evs.len() && typeref_ok(evs, n[k])
}

/// Whether `t` is what the `<type>` element at `i` reads as.
pub open spec fn typeref_rel(t: TypeRef, evs: Seq<EventView>, i: int) -> bool
    decreases evs.len() - i,
{
    let a = tag_attrs(evs[i]);
    let n = named(evs, children(evs, i), "type"@);
    &&& req_value(a, "type"@) == Some(t.ty@)
    &&& flag_value(a, "list"@) == Ok::<bool, ()>(t.list)
    &&& flag_value(a, "hidden"@) == Ok::<bool, ()>(t.hidden)
    &&& t.types@.len() == n.len()
    &&& forall|k: int|
        0 <= k < n.len() ==> i < #[trigger] n[k] <= evs.len() && typeref_rel(
            t.types@[k],
            evs,
            n[k],
        )
}

/// Reads the `<type>` element at `i`, nested `<type>` children included.
fn typeref_at(evs: &Vec<XmlEvent>, i: usize) -> (r: Result<TypeRef, Error>)
    requires
        well_placed(views(evs@), i as int),
    ensures
        r is Ok <==> typeref_ok(views(evs@), i as int),
        r matches Ok(t) ==> typeref_rel(t, views(evs@), i as int),
        r matches Err(e) ==> e is Xml,
    decreases views(evs@).len() - i,
{
    let ks = readable_children(evs, i)?;
    let a = attrs_at(evs, i);
    let ty = required(a, "type")?;
    let list = flag(a, "list")?;
    let hidden = flag(a, "hidden")?;
    let ghost n = named(views(evs@), children(views(evs@), i as int), "type"@);
    proof {
        lemma_named_placed(views(evs@), ks@, "type"@);
        lemma_named_subset(views(evs@), children(views(evs@), i as int), "type"@);
        lemma_children_after(views(evs@), i as int);
        assert forall|k: int| 0 <= k < ks@.len() implies #[trigger] ks@[k] < views(evs@).len() by {
            assert(ints(ks@)[k] == ks@[k] as int);
        }
        assert forall|k: int| 0 <= k < n.len() implies i < #[trigger] n[k] <= views(evs@).len() by {
            assert(children(views(evs@), i as int).contains(n[k]));
            assert(well_placed(views(evs@), n[k]));
        }
    }
    let ps = named_positions(evs, &ks, "type");
    let mut types: Vec<TypeRef> = Vec::new();
    let mut j: usize = 0;
    while j < ps.len()
        invariant
            ints(ps@) == n,
            n == named(views(evs@), children(views(evs@), i as int), "type"@),
            forall|m: int| 0 <= m < n.len() ==> well_placed(views(evs@), #[trigger] n[m]),
            forall|m: int| 0 <= m < n.len() ==> i < #[trigger] n[m] <= views(evs@).len(),
            0 <= j <= ps@.len(),
            types@.len() == j,
            forall|m: int| 0 <= m < j ==> typeref_ok(views(evs@), #[trigger] n[m]),
            forall|m: int| 0 <= m < j ==> typeref_rel(#[trigger] types@[m], views(evs@), n[m]),
        decreases ps.len() - j,
    {
        assert(n[j as int] == ps@[j as int] as int);
        match typeref_at(evs, ps[j]) {
            Ok(t) => types.push(t),
            Err(e) => {
                assert(!typeref_ok(views(evs@), n[j as int]));
                return Err(e);
            },
        }
        j = j + 1;
    }
    let t = TypeRef { ty, list, hidden, types };
    assert(typeref_rel(t, views(evs@), i as int));
    Ok(t)
}

/// Whether two type references hold the same values, nested references
/// included.
pub open spec fn typeref_same(a: TypeRef, b: TypeRef) -> bool
    decreases a, 1int,
{
    &&& a.ty@ == b.ty@
    &&& a.list == b.list
    &&& a.hidden == b.hidden
    &&& a.types@.len() == b.types@.len()
    &&& nested_same(a, b, a.types@.len() as int)
}

/// Whether the first `n` nested references of `a` and `b` hold the same
/// values.
pub open spec fn nested_same(a: TypeRef, b: TypeRef, n: int) -> bool
    decreases a, 0int, n,
{
    if n <= 0 || n > a.types@.len() {
        true
    } else {
        proof {
            vstd::std_specs::vec::axiom_vec_index_decreases(a.types, n - 1);
        }
        nested_same(a, b, n - 1) && typeref_same(a.types@[n - 1], b.types@[n - 1])
    }
}

proof fn lemma_nested_same(a: TypeRef, b: TypeRef, n: int)
    requires
        0 <= n <= a.types@.len(),
        forall|m: int| 0 <= m < n ==> typeref_same(#[trigger] a.types@[m], b.types@[m]),
    ensures
        nested_same(a, b, n),
    decreases n,
{
    if n > 0 {
        lemma_nested_same(a, b, n - 1);
    }
}

/// A copy of a type reference, nested references included.
fn copy_typeref(t: &TypeRef) -> (r: TypeRef)
    ensures
        typeref_same(r, *t),
    decreases t,
{
    let mut types: Vec<TypeRef> = Vec::new();
    let mut k: usize = 0;
    while k < t.types.len()
        invariant
            0 <= k <= t.types@.len(),
            types@.len() == k,
            forall|m: int| 0 <= m < k ==> typeref_same(#[trigger] types@[m], t.types@[m]),
        decreases t.types.len() - k,
    {
        proof {
            vstd::std_specs::vec::axiom_vec_index_decreases(t.types, k as int);
        }
        types.push(copy_typeref(&t.types[k]));
        k = k + 1;
    }
    let r = TypeRef { ty: t.ty.clone(), list: t.list, hidden: t.hidden, types };
    proof {
        lemma_nested_same(r, *t, r.types@.len() as int);
    }
    r
}

impl Clone for TypeRef {
    /// A copy holding the same values, nested references included.
    fn clone(&self) -> (r: Self)
        ensures
            typeref_same(r, *self),
    {
        copy_typeref(self)
    }
}

/// The XML text of a type reference written as an element named `tag`,
/// nested references included.
pub open spec fn typeref_text(t: TypeRef, tag: Seq<char>) -> Seq<char>
    decreases t, 1int,
{
    element_xml(
        tag,
        attr_text("type"@, t.ty@) + flag_attr_text("list"@, t.list) + flag_attr_text(
            "hidden"@,
            t.hidden,
        ),
        typerefs_text(t, t.types@.len() as int),
    )
}

/// The XML text of the first `n` nested references of `t`, each written as
/// a `<type>` element.
pub open spec fn typerefs_text(t: TypeRef, n: int) -> Seq<char>
    decreases t, 0int, n,
{
    if n <= 0 || n > t.types@.len() {
        Seq::empty()
    } else {
        proof {
            vstd::std_specs::vec::axiom_vec_index_decreases(t.types, n - 1);
        }
        typerefs_text(t, n - 1) + typeref_text(t.types@[n - 1], "type"@)
    }
}

/// Appends a type reference as an element named `tag`, nested references
/// included.
fn write_typeref(t: &TypeRef, tag: &str, out: &mut String)
    ensures
        final(out)@ == old(out)@ + typeref_text(*t, tag@),
    decreases t,
{
    let mut attrs = String::new();
    push_attr(&mut attrs, "type", t.ty.as_str());
    assert(attrs@ =~= attr_text("type"@, t.ty@));
    push_flag_attr(&mut attrs, "list", t.list);
    push_flag_attr(&mut attrs, "hidden", t.hidden);
    let mut body = String::new();
    let mut k: usize = 0;
    while k < t.types.len()
        invariant
            0 <= k <= t.types@.len(),
            body@ == typerefs_text(*t, k as int),
        decreases t.types.len() - k,
    {
        proof {
            vstd::std_specs::vec::axiom_vec_index_decreases(t.types, k as int);
        }
        write_typeref(&t.types[k], "type", &mut body);
        k = k + 1;
    }
    write_element(out, tag, &attrs, &body);
}

impl ToXml for TypeRef {
    open spec fn xml_text(self, tag: Seq<char>) -> Seq<char> {
        typeref_text(self, tag)
    }

    fn write_xml(&self, tag: &str, out: &mut String) {
        write_typeref(self, tag, out)
    }
}

impl FromXml for TypeRef {
    open spec fn xml_ok(evs: Seq<EventView>, i: int) -> bool {
        typeref_ok(evs, i)
    }

    open spec fn xml_rel(self, evs: Seq<EventView>, i: int) -> bool {
        typeref_rel(self, evs, i)
    }

    fn from_xml(evs: &Vec<XmlEvent>, i: usize) -> (r: Result<Self, Error>) {
        typeref_at(evs, i)
    }
}

/// The attribute slots written for a [`TypeRef`].
pub open spec fn typeref_slots(t: TypeRef) -> Seq<(Seq<char>, Option<Seq<char>>)> {
    seq![req_slot("type"@, t.ty@), flag_slot("list"@, t.list), flag_slot("hidden"@, t.hidden)]
}

/// Number of events a type reference takes when written.
pub open spec fn typeref_span(t: TypeRef) -> int
    decreases t, 1int,
{
    element_span(nested_span(t, 0))
}

/// Number of events the nested references of `t` from the `k`-th on take.
pub open spec fn nested_span(t: TypeRef, k: int) -> int
    decreases t, 0int, t.types@.len() - k,
{
    if 0 <= k < t.types@.len() {
        proof {
            vstd::std_specs::vec::axiom_vec_index_decreases(t.types, k);
        }
        typeref_span(t.types@[k]) + nested_span(t, k + 1)
    } else {
        0
    }
}

/// Whether the events from `i` on spell `t` written as an element named
/// `tag`, nested references included.
pub open spec fn typeref_spelled(t: TypeRef, evs: Seq<EventView>, i: int, tag: Seq<char>) -> bool
    decreases t, 1int,
{
    &&& element_spelled(evs, i, tag, typeref_slots(t), nested_span(t, 0))
    &&& nested_spelled(t, 0, evs, i + 1)
}

/// Whether the events from `p` on spell the nested references of `t` from
/// the `k`-th on, each written as a `<type>` element.
pub open spec fn nested_spelled(t: TypeRef, k: int, evs: Seq<EventView>, p: int) -> bool
    decreases t, 0int, t.types@.len() - k,
{
    if 0 <= k < t.types@.len() {
        proof {
            vstd::std_specs::vec::axiom_vec_index_decreases(t.types, k);
        }
        &&& typeref_spelled(t.types@[k], evs, p, "type"@)
        &&& nested_spelled(t, k + 1, evs, p + typeref_span(t.types@[k]))
    } else {
        true
    }
}

/// Where the nested references of `t` from the `k`-th on start when
/// written from `p` on.
pub open spec fn nested_starts(t: TypeRef, k: int, p: int) -> Seq<int>
    decreases t.types@.len() - k,
{
    if 0 <= k < t.types@.len() {
        seq![p] + nested_starts(t, k + 1, p + typeref_span(t.types@[k]))
    } else {
        seq![]
    }
}

/// The events that spell a type reference read back as it.
pub proof fn lemma_typeref_reads_back(t: TypeRef, evs: Seq<EventView>, i: int, tag: Seq<char>)
    requires
        typeref_spelled(t, evs, i, tag),
    ensures
        typeref_span(t) >= 1,
        i + typeref_span(t) <= evs.len(),
        elem_end(evs, i) == Some(i + typeref_span(t)),
        tag_is(evs, i, tag),
        typeref_ok(evs, i),
        typeref_rel(t, evs, i),
    decreases t, 1int,
{
    let slots = typeref_slots(t);
    reveal_strlit("type");
    reveal_strlit("list");
    reveal_strlit("hidden");
    assert("type"@[0] != "list"@[0]);
    assert("type"@.len() != "hidden"@.len());
    assert("list"@.len() != "hidden"@.len());
    assert(keys_distinct(slots));
    let p0 = i + 1;
    let n = nested_span(t, 0);
    lemma_nested_reads_back(t, 0, evs, p0);
    let s0 = nested_starts(t, 0, p0);
    lemma_element_tags(evs, i, tag, slots, n, s0);
    lemma_named_append(evs, seq![], s0, "type"@);
    assert(seq![] + s0 =~= s0);
    assert(named(evs, s0, "type"@) =~= s0);
    assert(named(evs, children(evs, i), "type"@) == s0);
    lemma_tagged_decode(evs, s0, "type"@);
    lemma_decode_clean(evs, s0);
    let a = tag_attrs(evs[i]);
    lemma_attrs_read_back(a, slots, 0);
    lemma_attrs_read_back(a, slots, 1);
    lemma_attrs_read_back(a, slots, 2);
    lemma_flag_reads_back(t.list);
    lemma_flag_reads_back(t.hidden);
    assert forall|k: int| 0 <= k < s0.len() implies i < #[trigger] s0[k] <= evs.len()
        && typeref_ok(evs, s0[k]) by {}
    assert forall|k: int| 0 <= k < s0.len() implies i < #[trigger] s0[k] <= evs.len()
        && typeref_rel(t.types@[k], evs, s0[k]) by {}
}

/// The events that spell the nested references of `t` from the `k`-th on
/// read back as them, and take the content from `p` on.
pub proof fn lemma_nested_reads_back(t: TypeRef, k: int, evs: Seq<EventView>, p: int)
    requires
        0 <= k <= t.types@.len(),
        0 <= p,
        nested_spelled(t, k, evs, p),
    ensures
        0 <= nested_span(t, k),
        nested_starts(t, k, p).len() == t.types@.len() - k,
        kids_from(evs, p) == nested_starts(t, k, p) + kids_from(evs, p + nested_span(t, k)),
        forall|close: Seq<u8>|
            #![trigger content_end(evs, p, close)]
            content_end(evs, p, close) == content_end(evs, p + nested_span(t, k), close),
        all_tagged(evs, nested_starts(t, k, p), "type"@),
        forall|j: int|
            0 <= j < t.types@.len() - k ==> {
                let s = #[trigger] nested_starts(t, k, p)[j];
                &&& p <= s < evs.len()
                &&& typeref_ok(evs, s)
                &&& typeref_rel(t.types@[k + j], evs, s)
            },
    decreases t, 0int, t.types@.len() - k,
{
    reveal(all_tagged);
    if k == t.types@.len() {
        assert(nested_starts(t, k, p) + kids_from(evs, p) =~= kids_from(evs, p));
        return;
    }
    vstd::std_specs::vec::axiom_vec_index_decreases(t.types, k);
    let x = t.types@[k];
    let q = p + typeref_span(x);
    lemma_typeref_reads_back(x, evs, p, "type"@);
    lemma_nested_reads_back(t, k + 1, evs, q);
    assert(kids_from(evs, p) == seq![p] + kids_from(evs, q));
    assert(kids_from(evs, p) =~= nested_starts(t, k, p) + kids_from(evs, p + nested_span(t, k)));
    assert forall|close: Seq<u8>| #![trigger content_end(evs, p, close)]
        content_end(evs, p, close) == content_end(evs, p + nested_span(t, k), close) by {
        assert(content_end(evs, p, close) == content_end(evs, q, close));
    }
    assert forall|j: int| 0 <= j < nested_starts(t, k, p).len() implies tag_is(
        evs,
        #[trigger] nested_starts(t, k, p)[j],
        "type"@,
    ) by {
        if j > 0 {
            assert(nested_starts(t, k, p)[j] == nested_starts(t, k + 1, q)[j - 1]);
        }
    }
    assert forall|j: int| 0 <= j < t.types@.len() - k implies {
        let s = #[trigger] nested_starts(t, k, p)[j];
        &&& p <= s < evs.len()
        &&& typeref_ok(evs, s)
        &&& typeref_rel(t.types@[k + j], evs, s)
    } by {
        if j > 0 {
            assert(nested_starts(t, k, p)[j] == nested_starts(t, k + 1, q)[j - 1]);
            assert(k + j == (k + 1) + (j - 1));
        }
    }
}

impl ReadsBack for TypeRef {
    open spec fn event_span(self) -> int {
        typeref_span(self)
    }

    open spec fn spelled(self, evs: Seq<EventView>, i: int, tag: Seq<char>) -> bool {
        typeref_spelled(self, evs, i, tag)
    }

    open spec fn writable(self) -> bool {
        true
    }

    proof fn lemma_reads_back(self, evs: Seq<EventView>, i: int, tag: Seq<char>) {
        lemma_typeref_reads_back(self, evs, i, tag);
    }
}

/// Strict mode knows the name a [`TypeRef`] is written with, and checks none
/// of its attributes against a closed set.
proof fn lemma_typeref_strict_name()
    ensures
        known_names().contains("type"@),
        closed_rule("type"@) is None,
{
    reveal_strlit("type");
    reveal_strlit("accessor");
    assert("type"@.len() != "accessor"@.len());
    reveal_strlit("access-group");
    assert("type"@.len() != "access-group"@.len());
    reveal_strlit("cocoa");
    assert("type"@.len() != "cocoa"@.len());
    reveal_strlit("contents");
    assert("type"@.len() != "contents"@.len());
    reveal_strlit("direct-parameter");
    assert("type"@.len() != "direct-parameter"@.len());
    reveal_strlit("element");
    assert("type"@.len() != "element"@.len());
    reveal_strlit("parameter");
    assert("type"@.len() != "parameter"@.len());
    reveal_strlit("property");
    assert("type"@.len() != "property"@.len());
    assert(known_names()[22] == "type"@);
}
/// The events that spell a type reference pass strict mode.
pub proof fn lemma_typeref_passes_strict(t: TypeRef, evs: Seq<EventView>, i: int)
    requires
        typeref_spelled(t, evs, i, "type"@),
    ensures
        typeref_span(t) >= 1,
        strict_from(evs, i) == strict_from(evs, i + typeref_span(t)),
    decreases t, 1int,
{
    lemma_typeref_strict_name();
    lemma_nested_passes_strict(t, 0, evs, i + 1);
    lemma_tags_pass_strict(evs, i, "type"@, typeref_slots(t), nested_span(t, 0));
}

/// The events that spell the nested references of `t` from the `k`-th on
/// pass strict mode.
pub proof fn lemma_nested_passes_strict(t: TypeRef, k: int, evs: Seq<EventView>, p: int)
    requires
        0 <= k <= t.types@.len(),
        nested_spelled(t, k, evs, p),
    ensures
        0 <= nested_span(t, k),
        strict_from(evs, p) == strict_from(evs, p + nested_span(t, k)),
    decreases t, 0int, t.types@.len() - k,
{
    if k < t.types@.len() {
        vstd::std_specs::vec::axiom_vec_index_decreases(t.types, k);
        let x = t.types@[k];
        lemma_typeref_passes_strict(x, evs, p);
        lemma_nested_passes_strict(t, k + 1, evs, p + typeref_span(x));
    }
}

impl StrictSafe for TypeRef {
    open spec fn element_name() -> Seq<char> {
        "type"@
    }

    open spec fn canonical(self) -> bool {
        true
    }

    proof fn lemma_passes_strict(self, evs: Seq<EventView>, i: int) {
        lemma_typeref_passes_strict(self, evs, i);
    }
}

/// What the `(yes | no)` attributes of an element give the [`TypeRef`] read
/// from it: `yes` reads as set, `no` and an absent attribute as not set,
/// and any other text leaves the element unreadable.
pub proof fn lemma_type_ref_flags(x: TypeRef, evs: Seq<EventView>, i: int)
    requires
        x.xml_rel(evs, i),
    ensures
        crate::xmlmap::attr_value(tag_attrs(evs[i]), "list"@) == Ok::<Option<Seq<char>>, ()>(Some("yes"@)) ==> x.list,
        crate::xmlmap::attr_value(tag_attrs(evs[i]), "list"@) == Ok::<Option<Seq<char>>, ()>(Some("no"@)) ==> !x.list,
        crate::xmlmap::attr_value(tag_attrs(evs[i]), "list"@) == Ok::<Option<Seq<char>>, ()>(None) ==> !x.list,
        crate::xmlmap::attr_value(tag_attrs(evs[i]), "hidden"@) == Ok::<Option<Seq<char>>, ()>(Some("yes"@)) ==> x.hidden,
        crate::xmlmap::attr_value(tag_attrs(evs[i]), "hidden"@) == Ok::<Option<Seq<char>>, ()>(Some("no"@)) ==> !x.hidden,
        crate::xmlmap::attr_value(tag_attrs(evs[i]), "hidden"@) == Ok::<Option<Seq<char>>, ()>(None) ==> !x.hidden,
        (crate::xmlmap::attr_value(tag_attrs(evs[i]), "list"@) matches Ok(Some(t)) && t != "yes"@ && t != "no"@) ==> !TypeRef::xml_ok(evs, i),
        (crate::xmlmap::attr_value(tag_attrs(evs[i]), "hidden"@) matches Ok(Some(t)) && t != "yes"@ && t != "no"@) ==> !TypeRef::xml_ok(evs, i),
{
    crate::xmlmap::lemma_flag_field(tag_attrs(evs[i]), "list"@, x.list);
    crate::xmlmap::lemma_flag_field(tag_attrs(evs[i]), "hidden"@, x.hidden);
    crate::xmlmap::lemma_flag_refused(tag_attrs(evs[i]), "list"@);
    crate::xmlmap::lemma_flag_refused(tag_attrs(evs[i]), "hidden"@);
}

/// The attribute text written for a [`TypeRef`] is that of its slots.
proof fn lemma_type_ref_attribute_text(x: TypeRef)
    ensures
        crate::readback::slots_text(typeref_slots(x)) == attr_text("type"@, x.ty@) + flag_attr_text("list"@, x.list) + flag_attr_text(
            "hidden"@,
            x.hidden,
        ),
{
    let s = typeref_slots(x);
    assert(s.len() == 3);
    crate::readback::lemma_slots_text_step(s, 0);
    assert(crate::readback::slot_text(s[0]) =~= attr_text("type"@, x.ty@));
    crate::readback::lemma_slots_text_step(s, 1);
    assert(crate::readback::slot_text(s[1]) =~= flag_attr_text("list"@, x.list));
    crate::readback::lemma_slots_text_step(s, 2);
    assert(crate::readback::slot_text(s[2]) =~= flag_attr_text(
            "hidden"@,
            x.hidden,
        ));
    assert(s.take(0) =~= Seq::<(Seq<char>, Option<Seq<char>>)>::empty());
    assert(s.take(3) =~= s);
    assert(crate::readback::slots_text(s) =~= attr_text("type"@, x.ty@) + flag_attr_text("list"@, x.list) + flag_attr_text(
            "hidden"@,
            x.hidden,
        ));
}

/// The element written for a [`TypeRef`] carries exactly the attributes that
/// reading it back takes, [`typeref_slots`]: one for each slot that holds a value, in
/// slot order.
pub proof fn lemma_type_ref_written_attributes(x: TypeRef, tag: Seq<char>)
    ensures
        crate::readback::written_with_attributes(x.xml_text(tag), tag, typeref_slots(x)),
{
    lemma_type_ref_attribute_text(x);
    crate::readback::lemma_element_attributes(tag, attr_text("type"@, x.ty@) + flag_attr_text("list"@, x.list) + flag_attr_text(
            "hidden"@,
            x.hidden,
        ), typerefs_text(x, x.types@.len() as int), typeref_slots(x));
}

/// What is written for a type reference, nested references included, is
/// the text of the events that spell it.
pub proof fn lemma_typeref_text(t: TypeRef, evs: Seq<EventView>, i: int, tag: Seq<char>)
    requires
        typeref_spelled(t, evs, i, tag),
    ensures
        0 <= i,
        typeref_span(t) >= 1,
        i + typeref_span(t) <= evs.len(),
        typeref_text(t, tag).len() > 0,
        typeref_text(t, tag) == crate::readback::events_text(evs.subrange(i, i + typeref_span(t))),
    decreases t, 1int,
{
    let n = nested_span(t, 0);
    let p0 = i + 1;
    lemma_nested_text(t, 0, evs, p0);
    assert(typerefs_text(t, 0) == Seq::<char>::empty());
    assert(typerefs_text(t, t.types@.len() as int) =~= Seq::<char>::empty() + typerefs_text(
        t,
        t.types@.len() as int,
    ));
    lemma_type_ref_attribute_text(t);
    crate::readback::lemma_element_text(
        evs,
        i,
        tag,
        typeref_slots(t),
        n,
        typerefs_text(t, t.types@.len() as int),
    );
}

/// The nested references of `t` from the `k`-th on are written as the text
/// of the events that spell them.
proof fn lemma_nested_text(t: TypeRef, k: int, evs: Seq<EventView>, p: int)
    requires
        0 <= k <= t.types@.len(),
        0 <= p,
        nested_spelled(t, k, evs, p),
    ensures
        0 <= nested_span(t, k),
        nested_span(t, k) == 0 <==> k == t.types@.len(),
        k < t.types@.len() ==> p + nested_span(t, k) <= evs.len(),
        (k < t.types@.len() || p <= evs.len()) ==> typerefs_text(t, t.types@.len() as int)
            == typerefs_text(t, k) + crate::readback::events_text(
            evs.subrange(p, p + nested_span(t, k)),
        ),
        typerefs_text(t, t.types@.len() as int).len() == 0 <==> t.types@.len() == 0,
    decreases t, 0int, t.types@.len() - k,
{
    lemma_typerefs_text_len(t, t.types@.len() as int);
    if k == t.types@.len() {
        if p <= evs.len() {
            assert(evs.subrange(p, p) =~= Seq::<EventView>::empty());
            assert(typerefs_text(t, k) + Seq::<char>::empty() =~= typerefs_text(t, k));
        }
        return;
    }
    vstd::std_specs::vec::axiom_vec_index_decreases(t.types, k);
    let x = t.types@[k];
    let q = p + typeref_span(x);
    lemma_typeref_text(x, evs, p, "type"@);
    lemma_nested_text(t, k + 1, evs, q);
    assert(typerefs_text(t, k + 1) == typerefs_text(t, k) + typeref_text(x, "type"@));
    crate::readback::lemma_events_text_split(evs, p, q, p + nested_span(t, k));
    let a = typerefs_text(t, k);
    let b = typeref_text(x, "type"@);
    let c = crate::readback::events_text(evs.subrange(q, q + nested_span(t, k + 1)));
    assert(a + b + c =~= a + (b + c));
}

/// The nested references of `t` are written as nothing exactly when there
/// are none.
proof fn lemma_typerefs_text_len(t: TypeRef, n: int)
    requires
        0 <= n <= t.types@.len(),
    ensures
        typerefs_text(t, n).len() == 0 <==> n == 0,
    decreases n,
{
    if n > 0 {
        vstd::std_specs::vec::axiom_vec_index_decreases(t.types, n - 1);
        lemma_typerefs_text_len(t, n - 1);
        reveal_strlit("<");
        assert(typeref_text(t.types@[n - 1], "type"@).len() > 0);
    }
}

impl crate::readback::WritesText for TypeRef {
    proof fn lemma_written_text(self, evs: Seq<EventView>, i: int, tag: Seq<char>) {
        lemma_typeref_text(self, evs, i, tag);
    }
}

/// What a `<type>` element reads as is unique, nested references included.
proof fn lemma_typeref_unique(a: TypeRef, b: TypeRef, evs: Seq<EventView>, i: int)
    requires
        typeref_rel(a, evs, i),
        typeref_rel(b, evs, i),
    ensures
        typeref_same(a, b),
    decreases a, 1int,
{
    let n = named(evs, children(evs, i), "type"@);
    lemma_nested_unique(a, b, evs, n, a.types@.len() as int);
}

/// The first `m` nested references of two values read from the same
/// element agree.
proof fn lemma_nested_unique(a: TypeRef, b: TypeRef, evs: Seq<EventView>, n: Seq<int>, m: int)
    requires
        0 <= m <= a.types@.len(),
        a.types@.len() == n.len(),
        b.types@.len() == n.len(),
        forall|k: int| 0 <= k < n.len() ==> typeref_rel(#[trigger] a.types@[k], evs, n[k]),
        forall|k: int| 0 <= k < n.len() ==> typeref_rel(#[trigger] b.types@[k], evs, n[k]),
    ensures
        nested_same(a, b, m),
    decreases a, 0int, m,
{
    if m > 0 {
        vstd::std_specs::vec::axiom_vec_index_decreases(a.types, m - 1);
        lemma_typeref_unique(a.types@[m - 1], b.types@[m - 1], evs, n[m - 1]);
        lemma_nested_unique(a, b, evs, n, m - 1);
    }
}

impl crate::xmlmap::ReadsUniquely for TypeRef {
    open spec fn same(self, other: Self) -> bool {
        typeref_same(self, other)
    }

    proof fn lemma_reads_uniquely(self, other: Self, evs: Seq<EventView>, i: int) {
        lemma_typeref_unique(self, other, evs, i);
    }
}

} // verus!
