//! Byte- and character-level helpers shared by the tokenizer, the strict
//! validator, the AST mapping and the emitter: XML whitespace trimming,
//! qualified-name splitting, UTF-8 decoding and XML (un)escaping.

use vstd::prelude::*;
use vstd::utf8::*;

verus! {

broadcast use {vstd::utf8::encode_utf8_decode_utf8, vstd::utf8::encode_utf8_valid_utf8};

/// The XML whitespace bytes: space, tab, carriage return and line feed.
pub open spec fn is_xml_space(b: u8) -> bool {
    b == 0x20u8 || b == 0x09u8 || b == 0x0du8 || b == 0x0au8
}

/// Index of the first non-whitespace byte at or after `i`.
pub open spec fn skip_space_from(s: Seq<u8>, i: int) -> int
    decreases s.len() - i,
{
    if 0 <= i < s.len() && is_xml_space(s[i]) {
        skip_space_from(s, i + 1)
    } else {
        i
    }
}

/// Index just past the last non-whitespace byte before `j`.
pub open spec fn skip_space_back(s: Seq<u8>, j: int) -> int
    decreases j,
{
    if 0 < j <= s.len() && is_xml_space(s[j - 1]) {
        skip_space_back(s, j - 1)
    } else {
        j
    }
}

/// `s` without its leading XML whitespace.
pub open spec fn trim_start_spec(s: Seq<u8>) -> Seq<u8> {
    s.subrange(skip_space_from(s, 0), s.len() as int)
}

/// `s` without its trailing XML whitespace.
pub open spec fn trim_end_spec(s: Seq<u8>) -> Seq<u8> {
    s.subrange(0, skip_space_back(s, s.len() as int))
}

/// Skipping whitespace forward stays within the bytes.
pub proof fn lemma_skip_space_from_bounds(s: Seq<u8>, i: int)
    requires
        0 <= i <= s.len(),
    ensures
        i <= skip_space_from(s, i) <= s.len(),
    decreases s.len() - i,
{
    if i < s.len() && is_xml_space(s[i]) {
        lemma_skip_space_from_bounds(s, i + 1);
    }
}

/// Skipping whitespace backward stays within the bytes.
pub proof fn lemma_skip_space_back_bounds(s: Seq<u8>, j: int)
    requires
        0 <= j <= s.len(),
    ensures
        0 <= skip_space_back(s, j) <= j,
    decreases j,
{
    if 0 < j && is_xml_space(s[j - 1]) {
        lemma_skip_space_back_bounds(s, j - 1);
    }
}

/// Removes leading XML whitespace.
pub fn trim_start(s: &[u8]) -> (r: Vec<u8>)
    ensures
        r@ == trim_start_spec(s@),
{
    let mut i: usize = 0;
    while i < s.len() && is_space_byte(s[i])
        invariant
            0 <= i <= s@.len(),
            skip_space_from(s@, 0) == skip_space_from(s@, i as int),
        decreases s.len() - i,
    {
        i = i + 1;
    }
    proof {
        lemma_skip_space_from_bounds(s@, 0);
    }
    slice_range(s, i, s.len())
}

/// Removes trailing XML whitespace.
pub fn trim_end(s: &[u8]) -> (r: Vec<u8>)
    ensures
        r@ == trim_end_spec(s@),
{
    let mut j: usize = s.len();
    while j > 0 && is_space_byte(s[j - 1])
        invariant
            0 <= j <= s@.len(),
            skip_space_back(s@, s@.len() as int) == skip_space_back(s@, j as int),
        decreases j,
    {
        j = j - 1;
    }
    proof {
        lemma_skip_space_back_bounds(s@, s@.len() as int);
    }
    slice_range(s, 0, j)
}

/// Whether `b` is one of the four XML whitespace bytes.
pub fn is_space_byte(b: u8) -> (r: bool)
    ensures
        r == is_xml_space(b),
{
    b == 0x20u8 || b == 0x09u8 || b == 0x0du8 || b == 0x0au8
}

/// Copies `s[from..to]` into a new vector.
pub fn slice_range(s: &[u8], from: usize, to: usize) -> (r: Vec<u8>)
    requires
        from <= to <= s@.len(),
    ensures
        r@ == s@.subrange(from as int, to as int),
{
    let mut r: Vec<u8> = Vec::new();
    let mut k = from;
    while k < to
        invariant
            from <= k <= to <= s@.len(),
            r@ == s@.subrange(from as int, k as int),
        decreases to - k,
    {
        r.push(s[k]);
        k = k + 1;
        assert(r@ =~= s@.subrange(from as int, k as int));
    }
    r
}

/// Whether every byte of `s` is XML whitespace.
pub open spec fn all_space(s: Seq<u8>) -> bool {
    forall|k: int| 0 <= k < s.len() ==> is_xml_space(#[trigger] s[k])
}

pub fn is_all_space(s: &[u8]) -> (r: bool)
    ensures
        r == all_space(s@),
{
    let mut k: usize = 0;
    while k < s.len()
        invariant
            0 <= k <= s@.len(),
            forall|j: int| 0 <= j < k ==> is_xml_space(#[trigger] s@[j]),
        decreases s.len() - k,
    {
        if !is_space_byte(s[k]) {
            return false;
        }
        k = k + 1;
    }
    true
}

/// Index of the first `:` at or after `i`, as `QName` locates it.
pub open spec fn colon_from(s: Seq<u8>, i: int) -> Option<int>
    decreases s.len() - i,
{
    if 0 <= i < s.len() {
        if s[i] == 0x3au8 {
            Some(i)
        } else {
            colon_from(s, i + 1)
        }
    } else {
        None
    }
}

/// A colon found from `i` on is a colon at or after `i`.
pub proof fn lemma_colon_from_bounds(s: Seq<u8>, i: int)
    requires
        0 <= i,
    ensures
        colon_from(s, i) matches Some(c) ==> i <= c < s.len() && s[c] == 0x3au8,
    decreases s.len() - i,
{
    if 0 <= i < s.len() && s[i] != 0x3au8 {
        lemma_colon_from_bounds(s, i + 1);
    }
}

/// The local part of a qualified name: what follows the first `:`, or the
/// whole name when it holds none.
pub open spec fn local_part(s: Seq<u8>) -> Seq<u8> {
    match colon_from(s, 0) {
        Some(c) => s.subrange(c + 1, s.len() as int),
        None => s,
    }
}

/// The prefix of a qualified name: what precedes the first `:`, if any.
pub open spec fn prefix_part(s: Seq<u8>) -> Option<Seq<u8>> {
    match colon_from(s, 0) {
        Some(c) => Some(s.subrange(0, c)),
        None => None,
    }
}

/// Position of the first `:` in `s`.
pub fn find_colon(s: &[u8]) -> (r: Option<usize>)
    ensures
        r matches Some(c) ==> colon_from(s@, 0) == Some(c as int),
        r is None ==> colon_from(s@, 0) is None,
{
    let mut i: usize = 0;
    while i < s.len()
        invariant
            0 <= i <= s@.len(),
            colon_from(s@, 0) == colon_from(s@, i as int),
        decreases s.len() - i,
    {
        if s[i] == 0x3au8 {
            return Some(i);
        }
        i = i + 1;
    }
    None
}

/// The local part of the qualified name `s`.
pub fn local_name(s: &[u8]) -> (r: Vec<u8>)
    ensures
        r@ == local_part(s@),
{
    proof {
        lemma_colon_from_bounds(s@, 0);
    }
    match find_colon(s) {
        Some(c) => {
            assert(c < s.len());
            slice_range(s, c + 1, s.len())
        },
        None => slice_range(s, 0, s.len()),
    }
}

/// The prefix of the qualified name `s`, if it has one.
pub fn name_prefix(s: &[u8]) -> (r: Option<Vec<u8>>)
    ensures
        r matches Some(p) ==> prefix_part(s@) == Some(p@),
        r is None ==> prefix_part(s@) is None,
{
    proof {
        lemma_colon_from_bounds(s@, 0);
    }
    match find_colon(s) {
        Some(c) => {
            assert(c < s.len());
            Some(slice_range(s, 0, c))
        },
        None => None,
    }
}

/// Byte-wise equality of two slices.
pub fn bytes_equal(a: &[u8], b: &[u8]) -> (r: bool)
    ensures
        r == (a@ == b@),
{
    if a.len() != b.len() {
        return false;
    }
    let mut k: usize = 0;
    while k < a.len()
        invariant
            a@.len() == b@.len(),
            0 <= k <= a@.len(),
            forall|j: int| 0 <= j < k ==> a@[j] == b@[j],
        decreases a.len() - k,
    {
        if a[k] != b[k] {
            return false;
        }
        k = k + 1;
    }
    assert(a@ =~= b@);
    true
}

/// Character-wise equality of two string slices.
pub fn same_text(a: &str, b: &str) -> (r: bool)
    ensures
        r == (a@ == b@),
{
    let x = a.as_bytes();
    let y = b.as_bytes();
    let r = bytes_equal(x, y);
    proof {
        if r {
            assert(decode_utf8(encode_utf8(a@)) == a@);
            assert(decode_utf8(encode_utf8(b@)) == b@);
        }
    }
    r
}

/// Character-wise equality of a byte sequence, read as UTF-8, and a string.
pub open spec fn bytes_spell(bytes: Seq<u8>, text: Seq<char>) -> bool {
    bytes == encode_utf8(text)
}

/// Whether `bytes` is the UTF-8 encoding of `text`.
pub fn bytes_are_text(bytes: &[u8], text: &str) -> (r: bool)
    ensures
        r == bytes_spell(bytes@, text@),
{
    bytes_equal(bytes, text.as_bytes())
}

/// Decodes UTF-8 bytes into a `String`, or `None` when they are not valid
/// UTF-8. Calls `std::str::from_utf8`, whose documentation promises an error
/// exactly for byte slices that are not UTF-8; the contract states that with
/// vstd's model of UTF-8.
#[verifier::external_body]
pub(crate) fn decode_text(bytes: &[u8]) -> (r: Option<String>)
    ensures
        r is Some <==> valid_utf8(bytes@),
        r matches Some(s) ==> s@ == decode_utf8(bytes@),
{
    match std::str::from_utf8(bytes) {
        Ok(s) => Some(s.to_owned()),
        Err(_) => None,
    }
}

/// UTF-8 decoding as a partial function.
pub open spec fn utf8_text(bytes: Seq<u8>) -> Option<Seq<char>> {
    if valid_utf8(bytes) {
        Some(decode_utf8(bytes))
    } else {
        None
    }
}

/// Whether a text holds an `&`, the start of every entity reference.
pub open spec fn has_ampersand(t: Seq<char>) -> bool {
    t.contains('&')
}

/// What `quick_xml::escape::unescape` returns for a text: the text with its
/// predefined entities and character references replaced, or `None` where the
/// crate reports an escape error.
pub uninterp spec fn xml_unescaped(text: Seq<char>) -> Option<Seq<char>>;

/// Replaces the entities and character references of `text`. Calls
/// `quick_xml::escape::unescape`; the result is named by [`xml_unescaped`].
/// The crate's source returns the input unchanged when it holds no `&`.
#[verifier::external_body]
pub(crate) fn unescape_text(text: &str) -> (r: Option<String>)
    ensures
        r is Some <==> xml_unescaped(text@) is Some,
        r matches Some(s) ==> xml_unescaped(text@) == Some(s@),
        r is Some && r->Some_0@ == text@ <== !has_ampersand(text@),
{
    match quick_xml::escape::unescape(text) {
        Ok(s) => Some(s.into_owned()),
        Err(_) => None,
    }
}

/// Decoded and unescaped text of raw bytes from the document: text without
/// an `&` holds no entity and stays as it is.
pub open spec fn decoded_unescaped(raw: Seq<u8>) -> Option<Seq<char>> {
    match utf8_text(raw) {
        Some(t) => if has_ampersand(t) {
            xml_unescaped(t)
        } else {
            Some(t)
        },
        None => None,
    }
}

/// Text without an `&`, written as UTF-8, reads back as itself.
pub proof fn lemma_plain_text_reads_as_itself(t: Seq<char>)
    requires
        !has_ampersand(t),
    ensures
        decoded_unescaped(encode_utf8(t)) == Some(t),
{
    encode_utf8_valid_utf8(t);
    encode_utf8_decode_utf8(t);
}

/// Decodes raw document bytes and replaces their entities.
pub fn decode_unescape(raw: &[u8]) -> (r: Option<String>)
    ensures
        r is Some <==> decoded_unescaped(raw@) is Some,
        r matches Some(s) ==> decoded_unescaped(raw@) == Some(s@),
{
    match decode_text(raw) {
        Some(t) => unescape_text(t.as_str()),
        None => None,
    }
}

/// The escaped form `quick_xml::escape::escape` gives a single character.
pub open spec fn escape_char(c: char) -> Seq<char> {
    if c == '<' {
        seq!['&', 'l', 't', ';']
    } else if c == '>' {
        seq!['&', 'g', 't', ';']
    } else if c == '&' {
        seq!['&', 'a', 'm', 'p', ';']
    } else if c == '\'' {
        seq!['&', 'a', 'p', 'o', 's', ';']
    } else if c == '"' {
        seq!['&', 'q', 'u', 'o', 't', ';']
    } else {
        seq![c]
    }
}

/// The escaped form of a text: every `<`, `>`, `&`, `'` and `"` replaced by
/// its predefined entity.
pub open spec fn xml_escaped(s: Seq<char>) -> Seq<char>
    decreases s.len(),
{
    if s.len() == 0 {
        seq![]
    } else {
        xml_escaped(s.drop_last()) + escape_char(s.last())
    }
}

/// Escapes `<`, `>`, `&`, `'` and `"`. Calls `quick_xml::escape::escape`,
/// whose source replaces exactly these five characters by `&lt;`, `&gt;`,
/// `&amp;`, `&apos;` and `&quot;` and copies every other character.
#[verifier::external_body]
pub(crate) fn escape_text(s: &str) -> (r: String)
    ensures
        r@ == xml_escaped(s@),
{
    quick_xml::escape::escape(s).into_owned()
}

} // verus!
