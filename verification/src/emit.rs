//! Writing the AST back out as XML.
//!
//! Each element is written as `<tag` followed by its attributes, then either
//! `/>` when it has no content or `>`, its content and `</tag>`. Attribute
//! values and text are escaped. `bool` attributes are written only when
//! `true`, optional ones only when present, and child elements are grouped
//! by field, in the order the fields are declared.

use vstd::prelude::*;

use crate::text::{escape_text, xml_escaped};
use crate::yorn::{ser, ser_opt, yes_no_text};

verus! {

/// The text of one attribute: a space, the key, `="`, the escaped value and
/// a closing quote.
pub open spec fn attr_text(key: Seq<char>, value: Seq<char>) -> Seq<char> {
    " "@ + key + "=\""@ + xml_escaped(value) + "\""@
}

/// The text of an optional attribute: nothing when the value is absent.
pub open spec fn opt_attr_text(key: Seq<char>, value: Option<String>) -> Seq<char> {
    match value {
        Some(v) => attr_text(key, v@),
        None => Seq::empty(),
    }
}

/// The text of a `(yes | no)` attribute of a `bool` field: `yes` when set,
/// nothing when not, `false` being the default of an absent attribute.
pub open spec fn flag_attr_text(key: Seq<char>, value: bool) -> Seq<char> {
    if value {
        attr_text(key, yes_no_text(true))
    } else {
        Seq::empty()
    }
}

/// The text of a `(yes | no)` attribute of an `Option<bool>` field.
pub open spec fn flag_opt_attr_text(key: Seq<char>, value: Option<bool>) -> Seq<char> {
    match value {
        Some(b) => attr_text(key, yes_no_text(b)),
        None => Seq::empty(),
    }
}

/// An element named `tag` with the attribute text `attrs` and the content
/// `body`: self-closing when the content is empty.
pub open spec fn element_xml(tag: Seq<char>, attrs: Seq<char>, body: Seq<char>) -> Seq<char> {
    if body.len() == 0 {
        "<"@ + tag + attrs + "/>"@
    } else {
        "<"@ + tag + attrs + ">"@ + body + "</"@ + tag + ">"@
    }
}

/// A type that is written out as an XML element whose name its parent
/// chooses.
pub trait ToXml: Sized {
    /// The XML text of `self` written as an element named `tag`.
    spec fn xml_text(self, tag: Seq<char>) -> Seq<char>;

    /// Appends the XML text of `self`, as an element named `tag`, to `out`.
    fn write_xml(&self, tag: &str, out: &mut String)
        ensures
            final(out)@ == old(out)@ + self.xml_text(tag@),
    ;
}

/// The XML text of a sequence of elements, one after the other.
pub open spec fn many_text<T: ToXml>(items: Seq<T>, tag: Seq<char>) -> Seq<char>
    decreases items.len(),
{
    if items.len() == 0 {
        Seq::empty()
    } else {
        many_text(items.drop_last(), tag) + items.last().xml_text(tag)
    }
}

/// The XML text of an optional element: nothing when absent.
pub open spec fn one_text<T: ToXml>(item: Option<T>, tag: Seq<char>) -> Seq<char> {
    match item {
        Some(x) => x.xml_text(tag),
        None => Seq::empty(),
    }
}

/// Appends one attribute.
pub fn push_attr(out: &mut String, key: &str, value: &str)
    ensures
        final(out)@ == old(out)@ + attr_text(key@, value@),
{
    out.append(" ");
    out.append(key);
    out.append("=\"");
    let escaped = escape_text(value);
    out.append(escaped.as_str());
    out.append("\"");
}

/// Appends an optional attribute, when present.
pub fn push_opt_attr(out: &mut String, key: &str, value: &Option<String>)
    ensures
        final(out)@ == old(out)@ + opt_attr_text(key@, *value),
{
    match value {
        Some(v) => push_attr(out, key, v.as_str()),
        None => {
            assert(old(out)@ + Seq::<char>::empty() =~= old(out)@);
        },
    }
}

/// Appends a `(yes | no)` attribute of a `bool` field, when set.
pub fn push_flag_attr(out: &mut String, key: &str, value: bool)
    ensures
        final(out)@ == old(out)@ + flag_attr_text(key@, value),
{
    if value {
        push_attr(out, key, ser(true));
    } else {
        assert(old(out)@ + Seq::<char>::empty() =~= old(out)@);
    }
}

/// Appends a `(yes | no)` attribute of an `Option<bool>` field, when present.
pub fn push_flag_opt_attr(out: &mut String, key: &str, value: Option<bool>)
    ensures
        final(out)@ == old(out)@ + flag_opt_attr_text(key@, value),
{
    match ser_opt(value) {
        Some(t) => push_attr(out, key, t),
        None => {
            assert(old(out)@ + Seq::<char>::empty() =~= old(out)@);
        },
    }
}

/// Appends an element named `tag` with the attribute text `attrs` and the
/// content `body`.
pub fn write_element(out: &mut String, tag: &str, attrs: &String, body: &String)
    ensures
        final(out)@ == old(out)@ + element_xml(tag@, attrs@, body@),
{
    let ghost start = out@;
    out.append("<");
    out.append(tag);
    out.append(attrs.as_str());
    if body.as_str().is_empty() {
        out.append("/>");
    } else {
        out.append(">");
        out.append(body.as_str());
        out.append("</");
        out.append(tag);
        out.append(">");
    }
    assert(out@ =~= start + element_xml(tag@, attrs@, body@));
}

/// Appends a sequence of elements, each named `tag`.
pub fn write_many<T: ToXml>(items: &Vec<T>, tag: &str, out: &mut String)
    ensures
        final(out)@ == old(out)@ + many_text(items@, tag@),
{
    let ghost start = out@;
    let mut k: usize = 0;
    assert(items@.take(0) =~= Seq::<T>::empty());
    assert(start + Seq::<char>::empty() =~= start);
    while k < items.len()
        invariant
            0 <= k <= items@.len(),
            out@ == start + many_text(items@.take(k as int), tag@),
        decreases items.len() - k,
    {
        items[k].write_xml(tag, out);
        proof {
            assert(items@.take(k + 1).drop_last() =~= items@.take(k as int));
            assert(items@.take(k + 1).last() == items@[k as int]);
            assert(start + many_text(items@.take(k as int), tag@) + items@[k as int].xml_text(tag@)
                =~= start + many_text(items@.take(k + 1), tag@));
        }
        k = k + 1;
    }
    assert(items@.take(items@.len() as int) =~= items@);
}

/// Appends an optional element named `tag`, when present.
pub fn write_one<T: ToXml>(item: &Option<T>, tag: &str, out: &mut String)
    ensures
        final(out)@ == old(out)@ + one_text(*item, tag@),
{
    match item {
        Some(x) => x.write_xml(tag, out),
        None => {
            assert(old(out)@ + Seq::<char>::empty() =~= old(out)@);
        },
    }
}

/// Appends an element named `tag` whose content is the escaped `text`.
pub fn write_text_element(out: &mut String, tag: &str, text: &str)
    ensures
        final(out)@ == old(out)@ + element_xml(tag@, Seq::empty(), xml_escaped(text@)),
{
    let attrs = String::new();
    let body = escape_text(text);
    write_element(out, tag, &attrs, &body);
}

} // verus!
