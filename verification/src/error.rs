//! Public error type returned by parsing and emission entry points.

use vstd::prelude::*;

verus! {

/// `std::io::Error`, carried by [`Error::Io`].
#[verifier::external_type_specification]
#[verifier::external_body]
pub struct ExIoError(std::io::Error);

/// `quick_xml::DeError`, carried by [`Error::Xml`].
#[verifier::external_type_specification]
#[verifier::external_body]
pub struct ExDeError(quick_xml::DeError);

/// `quick_xml::SeError`, carried by [`Error::Ser`].
#[verifier::external_type_specification]
#[verifier::external_body]
pub struct ExSeError(quick_xml::SeError);

/// Errors produced by [`crate::Dictionary`] parsing and serialisation.
///
/// The [`Error::Xml`] and [`Error::Ser`] variants carry
/// [`quick_xml::DeError`] and [`quick_xml::SeError`] as part of the public
/// API.
#[derive(Debug)]
#[non_exhaustive]
pub enum Error {
    /// I/O failure while reading from a file or reader, or while writing to
    /// a file or writer.
    Io(std::io::Error),
    /// XML deserialization failure (malformed input or unexpected shape).
    Xml(quick_xml::DeError),
    /// XML serialisation failure.
    Ser(quick_xml::SeError),
    /// Strict-mode validation encountered an element name that this crate
    /// does not model. The payload is the local name of the offending
    /// element.
    UnknownElement {
        /// The local name of the unknown element.
        name: String,
    },
    /// Strict-mode validation encountered an `<xi:include>` directive.
    XIncludeUnsupported,
    /// Strict-mode validation encountered an attribute whose value is
    /// outside the closed set declared by the DTD.
    UnknownAttributeValue {
        /// The local name of the element carrying the attribute.
        element: String,
        /// The local name of the offending attribute.
        attribute: String,
        /// The actual value found in the source XML.
        value: String,
    },
}

/// What `format!("{:?}", s)` renders for a string: the text quoted, with
/// its special characters escaped.
pub uninterp spec fn debug_quoted(text: Seq<char>) -> Seq<char>;

/// The `Debug` rendering of a string slice, such as `"weird"` with its
/// quotes.
#[verifier::external_body]
pub(crate) fn quoted(text: &str) -> (r: String)
    ensures
        r@ == debug_quoted(text@),
{
    format!("{:?}", text)
}

/// The `Display` text of a `std::io::Error`. Nothing is stated of it: the
/// text of an operating-system error comes from the system.
#[verifier::external_body]
fn io_error_text(e: &std::io::Error) -> (r: String) {
    e.to_string()
}

/// The `Display` text of a `quick_xml::DeError`. For a `Custom` error it is
/// the error's message; nothing is stated of the others, whose text may
/// come from the operating system.
#[verifier::external_body]
fn de_error_text(e: &quick_xml::DeError) -> (r: String)
    ensures
        forall|m: Seq<char>| *e == #[trigger] custom_error(m) ==> r@ == m,
{
    e.to_string()
}

/// The `Display` text of a `quick_xml::SeError`. Nothing is stated of it:
/// the error value is opaque here.
#[verifier::external_body]
fn se_error_text(e: &quick_xml::SeError) -> (r: String) {
    e.to_string()
}

impl Error {
    /// The human-readable description of the error. For the variants that
    /// carry an outside error, the description is a fixed prefix followed by
    /// that error's own text, which for a custom deserialization error is
    /// its message.
    pub fn message(&self) -> (r: String)
        ensures
            self is Io ==> "I/O error: "@.is_prefix_of(r@),
            self is Xml ==> "XML deserialization error: "@.is_prefix_of(r@),
            forall|m: Seq<char>| *self == Error::Xml(#[trigger] custom_error(m)) ==> r@
                == "XML deserialization error: "@ + m,
            self is Ser ==> "XML serialisation error: "@.is_prefix_of(r@),
            self matches Error::UnknownElement { name } ==> r@ == "unknown XML element <"@
                + name@ + "> rejected by strict-mode validation"@,
            self is XIncludeUnsupported ==> r@
                == "<xi:include> is not supported by this parser; resolve includes before parsing"@,
            self matches Error::UnknownAttributeValue { element, attribute, value } ==> r@ == "<"@
                + element@ + " "@ + attribute@ + "="@ + debug_quoted(value@)
                + "> is outside the DTD's closed enumeration"@,
    {
        match self {
            Error::Io(e) => {
                let mut s = "I/O error: ".to_owned();
                s.append(io_error_text(e).as_str());
                s
            },
            Error::Xml(e) => {
                let mut s = "XML deserialization error: ".to_owned();
                s.append(de_error_text(e).as_str());
                s
            },
            Error::Ser(e) => {
                let mut s = "XML serialisation error: ".to_owned();
                s.append(se_error_text(e).as_str());
                s
            },
            Error::UnknownElement { name } => {
                let mut s = "unknown XML element <".to_owned();
                s.append(name.as_str());
                s.append("> rejected by strict-mode validation");
                s
            },
            Error::XIncludeUnsupported => {
                "<xi:include> is not supported by this parser; resolve includes before parsing".to_owned()
            },
            Error::UnknownAttributeValue { element, attribute, value } => {
                let mut s = "<".to_owned();
                s.append(element.as_str());
                s.append(" ");
                s.append(attribute.as_str());
                s.append("=");
                s.append(quoted(value.as_str()).as_str());
                s.append("> is outside the DTD's closed enumeration");
                s
            },
        }
    }
}

/// What `quick_xml::DeError::Custom` makes of a message.
pub uninterp spec fn custom_error(message: Seq<char>) -> quick_xml::DeError;

/// A deserialization error carrying a message: `quick_xml::DeError::Custom`,
/// whose value is made from the message alone; it is named by
/// [`custom_error`].
#[verifier::external_body]
pub(crate) fn custom_de_error(message: &str) -> (r: quick_xml::DeError)
    ensures
        r == custom_error(message@),
{
    quick_xml::DeError::Custom(message.to_owned())
}

/// The shape error reported when a document breaks the sdef grammar: an
/// [`Error::Xml`] carrying a custom deserialization error with `message`.
pub fn shape_error(message: &str) -> (r: Error)
    ensures
        r == Error::Xml(custom_error(message@)),
{
    Error::Xml(custom_de_error(message))
}

} // verus!
