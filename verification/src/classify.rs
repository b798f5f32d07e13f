//! The classifier: a single left-to-right scan that returns the most
//! specific style a text conforms to, or `Case::Unknown`.

use vstd::prelude::*;
use vstd::string::StrSliceExecFns;

use crate::case::Case;
use crate::chars::char_is_alphanumeric;
use crate::chars::char_is_lowercase;
use crate::chars::char_is_numeric;
use crate::chars::char_is_uppercase;
use crate::chars::char_is_alphabetic;
use crate::chars::spec_alphabetic;
use crate::chars::spec_alphanumeric;
use crate::chars::spec_lowercase;
use crate::chars::spec_numeric;
use crate::chars::spec_uppercase;

verus! {

/// One transition of the scanner: the running classification after
/// reading `c`, given the classification `result` so far, the previous
/// character, and the sticky consecutive-uppercase flag (already folded
/// with the current character when `c` is uppercase).
pub open spec fn spec_step(result: Case, prev: char, flag: bool, strict: bool, c: char) -> Case {
    if c == '-' {
        if (result == Case::Kebab || result == Case::Lower) && prev != '-' {
            Case::Kebab
        } else {
            Case::Unknown
        }
    } else if c == '_' {
        if (result == Case::Constant || result == Case::Snake) && prev != '_' {
            result
        } else if result == Case::NumberableCapital || result == Case::Upper {
            Case::Constant
        } else if result == Case::Lower {
            Case::Snake
        } else {
            Case::Unknown
        }
    } else if spec_uppercase(c) {
        let f = flag || spec_uppercase(prev);
        if (result == Case::Camel || result == Case::Pascal) && strict && f {
            Case::Unknown
        } else if result == Case::Camel || result == Case::Constant || result == Case::Pascal {
            result
        } else if result == Case::Lower {
            Case::Camel
        } else if result == Case::NumberableCapital || result == Case::Upper {
            Case::Upper
        } else {
            Case::Unknown
        }
    } else if spec_lowercase(c) {
        if result == Case::Camel || result == Case::Kebab || result == Case::Lower || result
            == Case::Snake {
            result
        } else if result == Case::Pascal || result == Case::NumberableCapital {
            Case::Pascal
        } else if result == Case::Upper && (!strict || !flag) {
            Case::Pascal
        } else {
            Case::Unknown
        }
    } else if spec_numeric(c) {
        result
    } else if spec_alphabetic(c) {
        if result == Case::Uni {
            Case::Uni
        } else {
            Case::Unknown
        }
    } else {
        Case::Unknown
    }
}

/// The sticky consecutive-uppercase flag after reading `c`: once any
/// two adjacent characters have both been uppercase it stays set.
pub open spec fn spec_step_flag(prev: char, flag: bool, c: char) -> bool {
    if spec_uppercase(c) {
        flag || spec_uppercase(prev)
    } else {
        flag
    }
}

/// The classification of the whole text given the scanner state
/// reached just before the remaining characters `s`. A text whose last
/// character is a delimiter is never classified.
pub open spec fn spec_scan(s: Seq<char>, strict: bool, result: Case, prev: char, flag: bool) -> Case
    decreases s.len(),
{
    if s.len() == 0 {
        if prev == '-' || prev == '_' {
            Case::Unknown
        } else {
            result
        }
    } else {
        spec_scan(
            s.drop_first(),
            strict,
            spec_step(result, prev, flag, strict, s[0]),
            s[0],
            spec_step_flag(prev, flag, s[0]),
        )
    }
}

/// The style of a text: the scan seeded from its first character. An
/// empty text, or one that opens with anything but an uppercase,
/// lowercase or caseless alphanumeric character, has no style.
pub open spec fn spec_identify(s: Seq<char>, strict: bool) -> Case {
    if s.len() == 0 {
        Case::Unknown
    } else if spec_uppercase(s[0]) {
        spec_scan(s.drop_first(), strict, Case::NumberableCapital, s[0], false)
    } else if spec_lowercase(s[0]) {
        spec_scan(s.drop_first(), strict, Case::Lower, s[0], false)
    } else if spec_alphanumeric(s[0]) {
        spec_scan(s.drop_first(), strict, Case::Uni, s[0], false)
    } else {
        Case::Unknown
    }
}

impl Case {
    /// Returns the [`Case`] of `value`.
    ///
    /// If `strict` is `true`, two consecutive uppercase characters are
    /// not allowed in camelCase and PascalCase: `HTTPServer` is then
    /// not considered PascalCase.
    ///
    /// A digit neither changes nor invalidates the running
    /// classification, so `V8_ENGINE` is CONSTANT_CASE and `V8Engine`
    /// is PascalCase.
    pub fn identify(value: &str, strict: bool) -> (result: Case)
        ensures
            result == spec_identify(value@, strict),
    {
        let n = value.unicode_len();
        if n == 0 {
            return Case::Unknown;
        }
        let first_char = value.get_char(0);
        let mut result = if char_is_uppercase(first_char) {
            Case::NumberableCapital
        } else if char_is_lowercase(first_char) {
            Case::Lower
        } else if char_is_alphanumeric(first_char) {
            Case::Uni
        } else {
            return Case::Unknown;
        };
        let mut previous_char = first_char;
        let mut has_consecutive_uppercase = false;
        let mut i: usize = 1;
        proof {
            assert(value@.skip(1) =~= value@.drop_first());
        }
        while i < n
            invariant
                1 <= i <= n,
                n == value@.len(),
                previous_char == value@[i - 1],
                spec_identify(value@, strict) == spec_scan(
                    value@.skip(i as int),
                    strict,
                    result,
                    previous_char,
                    has_consecutive_uppercase,
                ),
            decreases n - i,
        {
            let current_char = value.get_char(i);
            let ghost suffix = value@.skip(i as int);
            proof {
                assert(suffix.len() > 0);
                assert(suffix[0] == value@[i as int]);
                assert(suffix.drop_first() =~= value@.skip(i + 1));
            }
            result = if current_char == '-' {
                if (result == Case::Kebab || result == Case::Lower) && previous_char != '-' {
                    Case::Kebab
                } else {
                    Case::Unknown
                }
            } else if current_char == '_' {
                if (result == Case::Constant || result == Case::Snake) && previous_char != '_' {
                    result
                } else if result == Case::NumberableCapital || result == Case::Upper {
                    Case::Constant
                } else if result == Case::Lower {
                    Case::Snake
                } else {
                    Case::Unknown
                }
            } else if char_is_uppercase(current_char) {
                has_consecutive_uppercase = has_consecutive_uppercase || char_is_uppercase(
                    previous_char,
                );
                if (result == Case::Camel || result == Case::Pascal) && strict
                    && has_consecutive_uppercase {
                    Case::Unknown
                } else if result == Case::Camel || result == Case::Constant || result
                    == Case::Pascal {
                    result
                } else if result == Case::Lower {
                    Case::Camel
                } else if result == Case::NumberableCapital || result == Case::Upper {
                    Case::Upper
                } else {
                    Case::Unknown
                }
            } else if char_is_lowercase(current_char) {
                if result == Case::Camel || result == Case::Kebab || result == Case::Lower
                    || result == Case::Snake {
                    result
                } else if result == Case::Pascal || result == Case::NumberableCapital {
                    Case::Pascal
                } else if result == Case::Upper && (!strict || !has_consecutive_uppercase) {
                    Case::Pascal
                } else {
                    Case::Unknown
                }
            } else if char_is_numeric(current_char) {
                result
            } else if char_is_alphabetic(current_char) {
                if result == Case::Uni {
                    Case::Uni
                } else {
                    Case::Unknown
                }
            } else {
                Case::Unknown
            };
            previous_char = current_char;
            i = i + 1;
        }
        // The last character cannot be a delimiter.
        if previous_char == '-' || previous_char == '_' {
            return Case::Unknown;
        }
        result
    }
}

} // verus!
