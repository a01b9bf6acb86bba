//! The DTD's `(yes | no)` entity.
//!
//! Several sdef attributes (`optional`, `hidden`, `inherited`, ...) are typed
//! as the `yorn` entity in `sdef.dtd`. The literal strings `"yes"`/`"no"`
//! read as `bool`; an absent attribute reads as `false`, or as `None` where
//! the DTD's default for an absent attribute is not `false`.

use vstd::prelude::*;

use crate::error::{custom_error, debug_quoted, quoted, shape_error, Error};
use crate::text::same_text;

verus! {

/// The value a `(yes | no)` attribute gives a `bool` field: absent is
/// `false`; any text but `yes` or `no` is an error.
pub open spec fn yes_no(value: Option<Seq<char>>) -> Result<bool, ()> {
    match value {
        None => Ok(false),
        Some(t) => if t == "yes"@ {
            Ok(true)
        } else if t == "no"@ {
            Ok(false)
        } else {
            Err(())
        },
    }
}

/// The value a `(yes | no)` attribute gives an `Option<bool>` field: absent
/// is `None`; any text but `yes` or `no` is an error.
pub open spec fn yes_no_opt(value: Option<Seq<char>>) -> Result<Option<bool>, ()> {
    match value {
        None => Ok(None),
        Some(t) => if t == "yes"@ {
            Ok(Some(true))
        } else if t == "no"@ {
            Ok(Some(false))
        } else {
            Err(())
        },
    }
}

/// The message of the error reported for a `(yes | no)` attribute with
/// another value.
pub open spec fn yes_no_message(value: Seq<char>) -> Seq<char> {
    "expected 'yes' or 'no', got "@ + debug_quoted(value)
}

/// The error reported for a `(yes | no)` attribute with another value.
fn yes_no_error(value: &str) -> (r: Error)
    ensures
        r == Error::Xml(custom_error(yes_no_message(value@))),
{
    let mut m = "expected 'yes' or 'no', got ".to_owned();
    m.append(quoted(value).as_str());
    shape_error(m.as_str())
}

/// Reads a `(yes | no)` attribute into a `bool`, treating an absent
/// attribute as `false`.
pub fn de(value: Option<&str>) -> (r: Result<bool, Error>)
    ensures
        r is Ok <==> yes_no(opt_text(value)) is Ok,
        r matches Ok(b) ==> yes_no(opt_text(value)) == Ok::<bool, ()>(b),
        r matches Err(e) ==> value matches Some(t) && e == Error::Xml(
            custom_error(yes_no_message(t@)),
        ),
{
    match value {
        None => Ok(false),
        Some(t) => if same_text(t, "yes") {
            Ok(true)
        } else if same_text(t, "no") {
            Ok(false)
        } else {
            Err(yes_no_error(t))
        },
    }
}

/// Reads a `(yes | no)` attribute into an `Option<bool>`, distinguishing
/// "attribute absent" (`None`) from the explicit values.
pub fn de_opt(value: Option<&str>) -> (r: Result<Option<bool>, Error>)
    ensures
        r is Ok <==> yes_no_opt(opt_text(value)) is Ok,
        r matches Ok(b) ==> yes_no_opt(opt_text(value)) == Ok::<Option<bool>, ()>(b),
        r matches Err(e) ==> value matches Some(t) && e == Error::Xml(
            custom_error(yes_no_message(t@)),
        ),
{
    match value {
        None => Ok(None),
        Some(t) => if same_text(t, "yes") {
            Ok(Some(true))
        } else if same_text(t, "no") {
            Ok(Some(false))
        } else {
            Err(yes_no_error(t))
        },
    }
}

/// The literal an attribute of a `bool` field is written with.
pub open spec fn yes_no_text(b: bool) -> Seq<char> {
    if b {
        "yes"@
    } else {
        "no"@
    }
}

/// Writes a `bool` as the literal `"yes"` or `"no"`.
pub fn ser(b: bool) -> (r: &'static str)
    ensures
        r@ == yes_no_text(b),
{
    if b {
        "yes"
    } else {
        "no"
    }
}

/// The literal an attribute of an `Option<bool>` field is written with, or
/// `None` when the attribute is left out.
pub fn ser_opt(b: Option<bool>) -> (r: Option<&'static str>)
    ensures
        b is None ==> r is None,
        b matches Some(v) ==> r matches Some(t) && t@ == yes_no_text(v),
{
    match b {
        Some(true) => Some("yes"),
        Some(false) => Some("no"),
        None => None,
    }
}

/// Whether an attribute of a `bool` field is left out on emission: it is
/// exactly when the value is `false`, the DTD's implicit default.
pub fn is_false(b: &bool) -> (r: bool)
    ensures
        r == !*b,
{
    !*b
}

/// A `bool` field written as the emitter writes it (`yes` when set, left
/// out when not) reads back as the same value, and so does the literal
/// [`ser`] gives either value.
pub proof fn lemma_flag_reads_back(b: bool)
    ensures
        yes_no(if b { Some(yes_no_text(true)) } else { None }) == Ok::<bool, ()>(b),
        yes_no(Some(yes_no_text(b))) == Ok::<bool, ()>(b),
{
    reveal_strlit("yes");
    assert("yes"@.len() == 3 && "yes"@[0] == 'y');
    reveal_strlit("no");
    assert("no"@.len() == 2 && "no"@[0] == 'n');
}

/// An `Option<bool>` field written as its literal, or left out when `None`,
/// reads back as the same value.
pub proof fn lemma_flag_opt_reads_back(b: Option<bool>)
    ensures
        yes_no_opt(
            match b {
                Some(v) => Some(yes_no_text(v)),
                None => None,
            },
        ) == Ok::<Option<bool>, ()>(b),
{
    reveal_strlit("yes");
    assert("yes"@.len() == 3 && "yes"@[0] == 'y');
    reveal_strlit("no");
    assert("no"@.len() == 2 && "no"@[0] == 'n');
}

/// The text of an optional string slice.
pub open spec fn opt_text(value: Option<&str>) -> Option<Seq<char>> {
    match value {
        Some(t) => Some(t@),
        None => None,
    }
}

} // verus!
