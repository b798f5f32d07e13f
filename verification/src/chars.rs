//! A model of Unicode character classification and case mapping.
//!
//! The classifier and the rewriter only ever ask six questions of a
//! character: is it uppercase, lowercase, numeric, alphabetic or
//! alphanumeric, and what does it become under simple case mapping.
//! On the ASCII range the answers are fixed here, directly in the spec
//! functions. Beyond ASCII the answers are names for what the standard
//! library returns: `char::is_uppercase` and its siblings are pure
//! functions of the character, so each gets an uninterpreted spec
//! function, and a trusted wrapper ties the call to its name.

use vstd::prelude::*;

verus! {

/// What `char::is_uppercase` returns beyond the ASCII range.
pub uninterp spec fn unicode_uppercase(c: char) -> bool;

/// What `char::is_lowercase` returns beyond the ASCII range.
pub uninterp spec fn unicode_lowercase(c: char) -> bool;

/// What `char::is_numeric` returns beyond the ASCII range.
pub uninterp spec fn unicode_numeric(c: char) -> bool;

/// What `char::is_alphabetic` returns beyond the ASCII range, for
/// characters that are neither uppercase nor lowercase; the cased
/// characters are alphabetic by definition of the Unicode `Alphabetic`
/// property, and `spec_alphabetic` accounts for them separately.
pub uninterp spec fn unicode_letter(c: char) -> bool;

/// What `char::to_uppercase` yields, for the characters whose uppercase
/// mapping is not pinned down by `spec_uppercased`.
pub uninterp spec fn unicode_uppercased(c: char) -> Seq<char>;

/// What `char::to_lowercase` yields, for the characters whose lowercase
/// mapping is not pinned down by `spec_lowercased`.
pub uninterp spec fn unicode_lowercased(c: char) -> Seq<char>;

pub open spec fn spec_ascii(c: char) -> bool {
    (c as u32) < 128
}

/// `char::is_uppercase`: `A` to `Z` on the ASCII range.
pub open spec fn spec_uppercase(c: char) -> bool {
    if spec_ascii(c) {
        'A' <= c && c <= 'Z'
    } else {
        unicode_uppercase(c)
    }
}

/// `char::is_lowercase`: `a` to `z` on the ASCII range. The Unicode
/// `Uppercase` and `Lowercase` properties are disjoint — no character
/// carries both — and the model records that here.
pub open spec fn spec_lowercase(c: char) -> bool {
    if spec_ascii(c) {
        'a' <= c && c <= 'z'
    } else {
        unicode_lowercase(c) && !unicode_uppercase(c)
    }
}

/// `char::is_numeric`: `0` to `9` on the ASCII range.
pub open spec fn spec_numeric(c: char) -> bool {
    if spec_ascii(c) {
        '0' <= c && c <= '9'
    } else {
        unicode_numeric(c)
    }
}

/// `char::is_alphabetic`: the letters on the ASCII range; beyond it,
/// every cased character (the Unicode `Alphabetic` property contains
/// the `Uppercase` and `Lowercase` properties) and the remaining
/// letters.
pub open spec fn spec_alphabetic(c: char) -> bool {
    if spec_ascii(c) {
        ('A' <= c && c <= 'Z') || ('a' <= c && c <= 'z')
    } else {
        unicode_uppercase(c) || unicode_lowercase(c) || unicode_letter(c)
    }
}

/// `char::is_alphanumeric`: alphabetic or numeric, which is how the
/// standard library defines it.
pub open spec fn spec_alphanumeric(c: char) -> bool {
    spec_alphabetic(c) || spec_numeric(c)
}

/// `char::to_uppercase`, as a sequence of characters. An uppercase
/// character has no uppercase conversion and yields itself, and so does
/// a caseless numeric character; everything else is left to its name.
pub open spec fn spec_uppercased(c: char) -> Seq<char> {
    if spec_uppercase(c) {
        seq![c]
    } else if spec_numeric(c) && !spec_lowercase(c) {
        seq![c]
    } else {
        unicode_uppercased(c)
    }
}

/// `char::to_lowercase`, as a sequence of characters. A lowercase
/// character has no lowercase conversion and yields itself, and so does
/// a caseless numeric character; everything else is left to its name.
pub open spec fn spec_lowercased(c: char) -> Seq<char> {
    if spec_lowercase(c) {
        seq![c]
    } else if spec_numeric(c) && !spec_uppercase(c) {
        seq![c]
    } else {
        unicode_lowercased(c)
    }
}

/// Relies on `char::is_uppercase`: true exactly on characters with the
/// Unicode `Uppercase` property, which on ASCII are `A` to `Z`.
#[verifier::external_body]
pub(crate) fn char_is_uppercase(c: char) -> (r: bool)
    ensures
        r == spec_uppercase(c),
        !spec_ascii(c) ==> r == unicode_uppercase(c),
{
    c.is_uppercase()
}

/// Relies on `char::is_lowercase`: true exactly on characters with the
/// Unicode `Lowercase` property, which on ASCII are `a` to `z` and
/// which no character shares with the `Uppercase` property.
#[verifier::external_body]
pub(crate) fn char_is_lowercase(c: char) -> (r: bool)
    ensures
        r == spec_lowercase(c),
        !spec_ascii(c) ==> r == (unicode_lowercase(c) && !unicode_uppercase(c)),
{
    c.is_lowercase()
}

/// Relies on `char::is_numeric`: true exactly on characters in the
/// Unicode numeric categories, which on ASCII are `0` to `9`.
#[verifier::external_body]
pub(crate) fn char_is_numeric(c: char) -> (r: bool)
    ensures
        r == spec_numeric(c),
        !spec_ascii(c) ==> r == unicode_numeric(c),
{
    c.is_numeric()
}

/// Relies on `char::is_alphabetic`: true exactly on characters with the
/// Unicode `Alphabetic` property, a superset of the cased characters,
/// which on ASCII are the letters.
#[verifier::external_body]
pub(crate) fn char_is_alphabetic(c: char) -> (r: bool)
    ensures
        r == spec_alphabetic(c),
        !spec_ascii(c) ==> r == (unicode_uppercase(c) || unicode_lowercase(c) || unicode_letter(
            c,
        )),
{
    c.is_alphabetic()
}

/// Relies on `char::is_alphanumeric`: documented as alphabetic or
/// numeric.
#[verifier::external_body]
pub(crate) fn char_is_alphanumeric(c: char) -> (r: bool)
    ensures
        r == spec_alphanumeric(c),
{
    c.is_alphanumeric()
}

/// Relies on `char::to_uppercase`: yields the Unicode uppercase mapping
/// of the character, one or more characters; a character without an
/// uppercase conversion, in particular one that is already uppercase or
/// is a caseless numeric character, yields itself.
#[verifier::external_body]
pub(crate) fn char_to_uppercase(c: char) -> (r: Vec<char>)
    ensures
        r@ == spec_uppercased(c),
        !spec_uppercase(c) && !(spec_numeric(c) && !spec_lowercase(c)) ==> r@
            == unicode_uppercased(c),
{
    c.to_uppercase().collect()
}

/// Relies on `char::to_lowercase`: yields the Unicode lowercase mapping
/// of the character, one or more characters; a character without a
/// lowercase conversion, in particular one that is already lowercase or
/// is a caseless numeric character, yields itself.
#[verifier::external_body]
pub(crate) fn char_to_lowercase(c: char) -> (r: Vec<char>)
    ensures
        r@ == spec_lowercased(c),
        !spec_lowercase(c) && !(spec_numeric(c) && !spec_uppercase(c)) ==> r@
            == unicode_lowercased(c),
{
    c.to_lowercase().collect()
}

/// Relies on `String::push`: appends the character to the end of the
/// string.
#[verifier::external_body]
pub(crate) fn string_push(s: &mut String, c: char)
    ensures
        final(s)@ == old(s)@ + seq![c],
{
    s.push(c);
}

} // verus!
