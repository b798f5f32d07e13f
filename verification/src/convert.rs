//! The rewriter: re-segments arbitrary input into words and re-emits
//! it in a target style.

use vstd::prelude::*;
use vstd::string::StrSliceExecFns;
use vstd::string::StringExecFns;

use crate::case::Case;
use crate::chars::char_is_alphanumeric;
use crate::chars::char_is_lowercase;
use crate::chars::char_is_uppercase;
use crate::chars::char_to_lowercase;
use crate::chars::char_to_uppercase;
use crate::chars::spec_alphanumeric;
use crate::chars::spec_lowercase;
use crate::chars::spec_lowercased;
use crate::chars::spec_uppercase;
use crate::chars::spec_uppercased;
use crate::chars::string_push;

verus! {

/// The separator glyph a target style puts between words: an
/// underscore for the constant and snake conventions, a hyphen for the
/// kebab convention, nothing for the rest.
pub open spec fn spec_separator(target: Case) -> Seq<char> {
    if target == Case::Constant || target == Case::Snake {
        seq!['_']
    } else if target == Case::Kebab {
        seq!['-']
    } else {
        Seq::<char>::empty()
    }
}

/// What a target style emits for the character `c` found at position
/// `i`, given whether a word boundary `sep` precedes it.
pub open spec fn spec_emit(target: Case, c: char, i: int, sep: bool) -> Seq<char> {
    match target {
        Case::Camel | Case::Pascal => if sep {
            spec_uppercased(c)
        } else {
            spec_lowercased(c)
        },
        Case::Constant | Case::Upper => spec_uppercased(c),
        Case::NumberableCapital => if i == 0 {
            spec_uppercased(c)
        } else {
            Seq::<char>::empty()
        },
        Case::Kebab | Case::Snake | Case::Lower => spec_lowercased(c),
        Case::Uni => seq![c],
        Case::Unknown => Seq::<char>::empty(),
    }
}

/// The output of the rewriting pass from position `i` on, entered with
/// the word-boundary flag `sep`. A character that is not alphanumeric
/// — or any cased character, when the target is the caseless style —
/// only raises the flag; every other character is emitted, preceded by
/// the target's separator when the flag is up, and the flag is raised
/// again between a run of uppercase characters and a following
/// lowercase one, and before an uppercase character that follows a
/// lowercase one.
pub open spec fn spec_rewrite(target: Case, s: Seq<char>, i: int, sep: bool) -> Seq<char>
    decreases s.len() - i,
{
    if i < 0 || i >= s.len() {
        Seq::<char>::empty()
    } else {
        let c = s[i];
        if !spec_alphanumeric(c) || (target == Case::Uni && (spec_lowercase(c) || spec_uppercase(
            c,
        ))) {
            spec_rewrite(target, s, i + 1, true)
        } else {
            let boundary = sep || (i + 1 < s.len() && i != 0 && spec_uppercase(c) && spec_lowercase(
                s[i + 1],
            ));
            let glyph = if boundary {
                spec_separator(target)
            } else {
                Seq::<char>::empty()
            };
            let next_sep = i + 1 < s.len() && spec_lowercase(c) && spec_uppercase(s[i + 1]);
            glyph + spec_emit(target, c, i, boundary) + spec_rewrite(target, s, i + 1, next_sep)
        }
    }
}

/// The rewriting of a whole text: the empty text and the absent target
/// style are left unchanged; otherwise the pass starts at the first
/// character, with the word-boundary flag initially up only for the
/// pascal convention, so that the first letter capitalises.
pub open spec fn spec_convert(target: Case, s: Seq<char>) -> Seq<char> {
    if s.len() == 0 || target == Case::Unknown {
        s
    } else {
        spec_rewrite(target, s, 0, target == Case::Pascal)
    }
}

/// Appends every character of `cs` to `out`.
fn push_chars(out: &mut String, cs: &Vec<char>)
    ensures
        final(out)@ == old(out)@ + cs@,
{
    let mut j: usize = 0;
    while j < cs.len()
        invariant
            j <= cs@.len(),
            out@ == old(out)@ + cs@.take(j as int),
        decreases cs@.len() - j,
    {
        string_push(out, cs[j]);
        proof {
            assert(cs@.take(j as int) + seq![cs@[j as int]] =~= cs@.take(j + 1));
        }
        j = j + 1;
    }
    proof {
        assert(cs@.take(cs@.len() as int) =~= cs@);
    }
}

impl Case {
    /// Rewrites `value` into the `self` style.
    ///
    /// The input need not already conform to any recognised style: it
    /// is re-segmented into words at delimiters and at case
    /// transitions, and re-emitted word by word. The empty text, and
    /// every text when the target is [`Case::Unknown`], come back
    /// unchanged.
    pub fn convert(self, value: &str) -> (result: String)
        ensures
            result@ == spec_convert(self, value@),
            value@.len() == 0 ==> result@ == value@,
            self == Case::Unknown ==> result@ == value@,
    {
        let n = value.unicode_len();
        if n == 0 || self == Case::Unknown {
            return String::from_str(value);
        }
        let mut word_separator = self == Case::Pascal;
        let mut output = String::new();
        let mut i: usize = 0;
        while i < n
            invariant
                i <= n,
                n == value@.len(),
                self != Case::Unknown,
                spec_rewrite(self, value@, 0, self == Case::Pascal) == output@ + spec_rewrite(
                    self,
                    value@,
                    i as int,
                    word_separator,
                ),
            decreases n - i,
        {
            let ghost s = value@;
            let ghost entry_sep = word_separator;
            let ghost entry_out = output@;
            let current = value.get_char(i);
            if !char_is_alphanumeric(current) || (self == Case::Uni && (char_is_lowercase(current)
                || char_is_uppercase(current))) {
                word_separator = true;
                i = i + 1;
                proof {
                    assert(spec_rewrite(self, s, i - 1, entry_sep) == spec_rewrite(
                        self,
                        s,
                        i as int,
                        true,
                    ));
                }
                continue ;
            }
            if i + 1 < n && i != 0 && char_is_uppercase(current) && char_is_lowercase(
                value.get_char(i + 1),
            ) {
                word_separator = true;
            }
            let ghost boundary = word_separator;
            proof {
                assert(boundary == (entry_sep || (i + 1 < s.len() && i != 0 && spec_uppercase(
                    s[i as int],
                ) && spec_lowercase(s[i + 1]))));
            }
            if word_separator {
                if self == Case::Constant || self == Case::Snake {
                    string_push(&mut output, '_');
                } else if self == Case::Kebab {
                    string_push(&mut output, '-');
                }
            }
            match self {
                Case::Camel | Case::Pascal => {
                    if word_separator {
                        push_chars(&mut output, &char_to_uppercase(current));
                    } else {
                        push_chars(&mut output, &char_to_lowercase(current));
                    }
                },
                Case::Constant | Case::Upper => {
                    push_chars(&mut output, &char_to_uppercase(current));
                },
                Case::NumberableCapital => {
                    if i == 0 {
                        push_chars(&mut output, &char_to_uppercase(current));
                    }
                },
                Case::Kebab | Case::Snake | Case::Lower => {
                    push_chars(&mut output, &char_to_lowercase(current));
                },
                Case::Uni => {
                    string_push(&mut output, current);
                },
                Case::Unknown => {},
            }
            word_separator = false;
            if i + 1 < n && char_is_lowercase(current) && char_is_uppercase(value.get_char(i + 1)) {
                word_separator = true;
            }
            proof {
                let glyph = if boundary {
                    spec_separator(self)
                } else {
                    Seq::<char>::empty()
                };
                assert(output@ == entry_out + glyph + spec_emit(self, s[i as int], i as int, boundary));
                assert(spec_rewrite(self, s, i as int, entry_sep) == glyph + spec_emit(
                    self,
                    s[i as int],
                    i as int,
                    boundary,
                ) + spec_rewrite(self, s, i + 1, word_separator));
                assert(entry_out + (glyph + spec_emit(self, s[i as int], i as int, boundary)
                    + spec_rewrite(self, s, i + 1, word_separator)) =~= (entry_out + glyph
                    + spec_emit(self, s[i as int], i as int, boundary)) + spec_rewrite(
                    self,
                    s,
                    i + 1,
                    word_separator,
                ));
            }
            i = i + 1;
        }
        output
    }
}

} // verus!
