//! The general laws of the classifier, the compatibility relation and
//! the rewriter, stated and proved once and for all inputs.

use vstd::prelude::*;

use crate::case::Case;
use crate::case::spec_compatible;
use crate::chars::spec_alphanumeric;
use crate::chars::spec_lowercase;
use crate::chars::spec_numeric;
use crate::chars::spec_uppercase;
use crate::classify::spec_identify;
use crate::classify::spec_scan;
use crate::classify::spec_step;
use crate::classify::spec_step_flag;
use crate::convert::spec_convert;
use crate::convert::spec_emit;
use crate::convert::spec_rewrite;
use crate::convert::spec_separator;

verus! {

/// A digit as the scanner sees one: numeric, and without either case,
/// so that it falls through the uppercase and lowercase tests.
pub open spec fn plain_digit(c: char) -> bool {
    spec_numeric(c) && !spec_uppercase(c) && !spec_lowercase(c)
}

/// A character of a lowercase word: a lowercase letter or a digit.
pub open spec fn word_lower(c: char) -> bool {
    spec_lowercase(c) || plain_digit(c)
}

/// A character of an uppercase word: an uppercase letter or a digit.
pub open spec fn word_upper(c: char) -> bool {
    spec_uppercase(c) || plain_digit(c)
}

/// A character of a cased word: a letter of either case or a digit.
pub open spec fn cased_word(c: char) -> bool {
    spec_uppercase(c) || spec_lowercase(c) || plain_digit(c)
}

/// A caseless alphanumeric character: what the `Uni` style is made of.
pub open spec fn caseless_word(c: char) -> bool {
    spec_alphanumeric(c) && !spec_uppercase(c) && !spec_lowercase(c)
}

/// The delimiter of a delimited style.
pub open spec fn delim_of(target: Case) -> char {
    if target == Case::Kebab {
        '-'
    } else {
        '_'
    }
}

/// The word characters of a delimited style.
pub open spec fn delim_word(target: Case, c: char) -> bool {
    if target == Case::Constant {
        word_upper(c)
    } else {
        word_lower(c)
    }
}

/// The shape of a whole text in a delimited style: word characters and
/// single delimiters, with no trailing and no doubled delimiter.
pub open spec fn delim_shape(target: Case, t: Seq<char>) -> bool {
    &&& forall|j: int| 0 <= j < t.len() ==> delim_word(target, #[trigger] t[j]) || t[j] == delim_of(
        target,
    )
    &&& t.len() > 0 ==> t[t.len() - 1] != delim_of(target)
    &&& forall|j: int| 0 < j < t.len() && (#[trigger] t[j]) == delim_of(target) ==> t[j - 1]
        != delim_of(target)
}

/// The shape of the still unread part `s` of a text in a delimited
/// style, given the character `prev` read just before it: a delimiter
/// never follows a delimiter and never ends the text.
pub open spec fn delim_tail_ok(s: Seq<char>, prev: char, d: char) -> bool {
    &&& forall|j: int| 0 <= j < s.len() && (#[trigger] s[j]) == d ==> if j == 0 {
        prev != d
    } else {
        s[j - 1] != d
    }
    &&& s.len() > 0 ==> s[s.len() - 1] != d
    &&& s.len() == 0 ==> prev != d
}

/// Scanning from the failed classification never recovers.
proof fn lemma_scan_unknown(s: Seq<char>, strict: bool, prev: char, flag: bool)
    ensures
        spec_scan(s, strict, Case::Unknown, prev, flag) == Case::Unknown,
    decreases s.len(),
{
    if s.len() > 0 {
        lemma_scan_unknown(s.drop_first(), strict, s[0], spec_step_flag(prev, flag, s[0]));
    }
}

/// What each final classification says about the scanner state it was
/// reached from and about the characters still to be read. The two
/// preconditions record that a delimiter can only just have been read
/// in the style it switches to.
proof fn lemma_scan_shape(s: Seq<char>, strict: bool, res: Case, prev: char, flag: bool)
    requires
        prev == '-' ==> res == Case::Kebab || res == Case::Unknown,
        prev == '_' ==> res == Case::Constant || res == Case::Snake || res == Case::Unknown,
    ensures
        spec_scan(s, strict, res, prev, flag) == Case::Lower ==> res == Case::Lower && (forall|
            j: int,
        |
            0 <= j < s.len() ==> word_lower(#[trigger] s[j])),
        spec_scan(s, strict, res, prev, flag) == Case::Upper ==> (res == Case::NumberableCapital
            || res == Case::Upper) && (forall|j: int|
            0 <= j < s.len() ==> word_upper(#[trigger] s[j])),
        spec_scan(s, strict, res, prev, flag) == Case::Uni ==> res == Case::Uni && (forall|j: int|
            0 <= j < s.len() ==> caseless_word(#[trigger] s[j])),
        spec_scan(s, strict, res, prev, flag) == Case::Camel ==> (res == Case::Lower || res
            == Case::Camel) && (forall|j: int| 0 <= j < s.len() ==> cased_word(#[trigger] s[j])),
        spec_scan(s, strict, res, prev, flag) == Case::Pascal ==> (res == Case::NumberableCapital
            || res == Case::Upper || res == Case::Pascal) && (forall|j: int|
            0 <= j < s.len() ==> cased_word(#[trigger] s[j])),
        spec_scan(s, strict, res, prev, flag) == Case::Snake ==> (res == Case::Lower || res
            == Case::Snake) && (forall|j: int|
            0 <= j < s.len() ==> word_lower(#[trigger] s[j]) || s[j] == '_') && delim_tail_ok(
            s,
            prev,
            '_',
        ),
        spec_scan(s, strict, res, prev, flag) == Case::Kebab ==> (res == Case::Lower || res
            == Case::Kebab) && (forall|j: int|
            0 <= j < s.len() ==> word_lower(#[trigger] s[j]) || s[j] == '-') && delim_tail_ok(
            s,
            prev,
            '-',
        ),
        spec_scan(s, strict, res, prev, flag) == Case::Constant ==> (res
            == Case::NumberableCapital || res == Case::Upper || res == Case::Constant) && (forall|
            j: int,
        |
            0 <= j < s.len() ==> word_upper(#[trigger] s[j]) || s[j] == '_') && delim_tail_ok(
            s,
            prev,
            '_',
        ),
    decreases s.len(),
{
    if s.len() > 0 {
        let c = s[0];
        let step = spec_step(res, prev, flag, strict, c);
        let flag2 = spec_step_flag(prev, flag, c);
        let tail = s.drop_first();
        assert(tail.len() == s.len() - 1);
        assert(forall|j: int| 0 <= j < tail.len() ==> #[trigger] tail[j] == s[j + 1]);
        let r = spec_scan(s, strict, res, prev, flag);
        assert(r == spec_scan(tail, strict, step, c, flag2));
        if step == Case::Unknown {
            lemma_scan_unknown(tail, strict, c, flag2);
        } else {
            lemma_scan_shape(tail, strict, step, c, flag2);
            if r == Case::Lower {
                assert forall|j: int| 0 <= j < s.len() implies word_lower(#[trigger] s[j]) by {
                    if j > 0 {
                        assert(s[j] == tail[j - 1]);
                    }
                }
            }
            if r == Case::Upper {
                assert forall|j: int| 0 <= j < s.len() implies word_upper(#[trigger] s[j]) by {
                    if j > 0 {
                        assert(s[j] == tail[j - 1]);
                    }
                }
            }
            if r == Case::Uni {
                assert forall|j: int| 0 <= j < s.len() implies caseless_word(#[trigger] s[j]) by {
                    if j > 0 {
                        assert(s[j] == tail[j - 1]);
                    }
                }
            }
            if r == Case::Camel || r == Case::Pascal {
                assert forall|j: int| 0 <= j < s.len() implies cased_word(#[trigger] s[j]) by {
                    if j > 0 {
                        assert(s[j] == tail[j - 1]);
                    }
                }
            }
            if r == Case::Snake || r == Case::Kebab || r == Case::Constant {
                let d: char = if r == Case::Kebab {
                    '-'
                } else {
                    '_'
                };
                assert(delim_tail_ok(tail, c, d));
                assert(c == d ==> prev != d);
                if r == Case::Snake || r == Case::Kebab {
                    assert forall|j: int| 0 <= j < s.len() implies word_lower(#[trigger] s[j])
                        || s[j] == d by {
                        if j > 0 {
                            assert(s[j] == tail[j - 1]);
                        }
                    }
                } else {
                    assert forall|j: int| 0 <= j < s.len() implies word_upper(#[trigger] s[j])
                        || s[j] == d by {
                        if j > 0 {
                            assert(s[j] == tail[j - 1]);
                        }
                    }
                }
                assert forall|j: int| 0 <= j < s.len() && (#[trigger] s[j]) == d implies (if j == 0 {
                    prev != d
                } else {
                    s[j - 1] != d
                }) by {
                    if j == 0 {
                    } else {
                        assert(tail[j - 1] == s[j]);
                        if j == 1 {
                            assert(s[0] == c);
                        } else {
                            assert(tail[j - 2] == s[j - 1]);
                        }
                    }
                }
                if s.len() == 1 {
                    assert(tail.len() == 0);
                    assert(c != d);
                    assert(s[s.len() - 1] == c);
                } else {
                    assert(tail[tail.len() - 1] == s[s.len() - 1]);
                }
                assert(delim_tail_ok(s, prev, d));
            }
        }
    }
}

/// A text whose last character is a delimiter is rejected, whatever
/// state the scan is in when it reaches it.
proof fn lemma_scan_trailing(s: Seq<char>, strict: bool, res: Case, prev: char, flag: bool)
    requires
        s.len() > 0,
        s[s.len() - 1] == '-' || s[s.len() - 1] == '_',
    ensures
        spec_scan(s, strict, res, prev, flag) == Case::Unknown,
    decreases s.len(),
{
    let tail = s.drop_first();
    let step = spec_step(res, prev, flag, strict, s[0]);
    let flag2 = spec_step_flag(prev, flag, s[0]);
    assert(spec_scan(s, strict, res, prev, flag) == spec_scan(tail, strict, step, s[0], flag2));
    if s.len() > 1 {
        assert(tail[tail.len() - 1] == s[s.len() - 1]);
        lemma_scan_trailing(tail, strict, step, s[0], flag2);
    } else {
        assert(tail.len() == 0);
        assert(s[0] == s[s.len() - 1]);
        assert(spec_scan(tail, strict, step, s[0], flag2) == Case::Unknown);
    }
}

/// Two adjacent delimiters are rejected, whatever state the scan is in
/// when it reaches them, provided the state is consistent with the
/// character read before (a delimiter can only just have been read in
/// the style it switches to).
proof fn lemma_scan_doubled(s: Seq<char>, strict: bool, res: Case, prev: char, flag: bool, j: int)
    requires
        prev == '-' ==> res == Case::Kebab || res == Case::Unknown,
        prev == '_' ==> res == Case::Constant || res == Case::Snake || res == Case::Unknown,
        0 <= j,
        j + 1 < s.len(),
        s[j] == s[j + 1],
        s[j] == '-' || s[j] == '_',
    ensures
        spec_scan(s, strict, res, prev, flag) == Case::Unknown,
    decreases s.len(),
{
    let c = s[0];
    let step = spec_step(res, prev, flag, strict, c);
    let flag2 = spec_step_flag(prev, flag, c);
    let tail = s.drop_first();
    assert(forall|k: int| 0 <= k < tail.len() ==> #[trigger] tail[k] == s[k + 1]);
    assert(spec_scan(s, strict, res, prev, flag) == spec_scan(tail, strict, step, c, flag2));
    if step == Case::Unknown {
        lemma_scan_unknown(tail, strict, c, flag2);
    } else if j == 0 {
        // the first of the two delimiters was just read; reading the
        // second fails, whichever delimited style the scan is now in
        let step2 = spec_step(step, c, flag2, strict, s[1]);
        let flag3 = spec_step_flag(c, flag2, s[1]);
        assert(tail[0] == s[1]);
        assert(spec_scan(tail, strict, step, c, flag2) == spec_scan(
            tail.drop_first(),
            strict,
            step2,
            s[1],
            flag3,
        ));
        assert(step2 == Case::Unknown);
        lemma_scan_unknown(tail.drop_first(), strict, s[1], flag3);
    } else {
        lemma_scan_doubled(tail, strict, step, c, flag2, j - 1);
    }
}

/// What each classification of a whole text says about its characters:
/// its first character seeds the style, and every character fits it.
proof fn lemma_identify_shape(t: Seq<char>, strict: bool)
    requires
        t.len() > 0,
    ensures
        spec_identify(t, strict) == Case::Lower ==> spec_lowercase(t[0]) && (forall|j: int|
            0 <= j < t.len() ==> word_lower(#[trigger] t[j])),
        spec_identify(t, strict) == Case::Upper ==> spec_uppercase(t[0]) && (forall|j: int|
            0 <= j < t.len() ==> word_upper(#[trigger] t[j])),
        spec_identify(t, strict) == Case::Uni ==> forall|j: int|
            0 <= j < t.len() ==> caseless_word(#[trigger] t[j]),
        spec_identify(t, strict) == Case::Camel ==> spec_lowercase(t[0]) && (forall|j: int|
            0 <= j < t.len() ==> cased_word(#[trigger] t[j])),
        spec_identify(t, strict) == Case::Pascal ==> spec_uppercase(t[0]) && (forall|j: int|
            0 <= j < t.len() ==> cased_word(#[trigger] t[j])),
        spec_identify(t, strict) == Case::Snake ==> spec_lowercase(t[0]) && delim_shape(
            Case::Snake,
            t,
        ),
        spec_identify(t, strict) == Case::Kebab ==> spec_lowercase(t[0]) && delim_shape(
            Case::Kebab,
            t,
        ),
        spec_identify(t, strict) == Case::Constant ==> spec_uppercase(t[0]) && delim_shape(
            Case::Constant,
            t,
        ),
{
    let first = t[0];
    let tail = t.drop_first();
    let r = spec_identify(t, strict);
    assert(forall|j: int| 0 <= j < tail.len() ==> #[trigger] tail[j] == t[j + 1]);
    if spec_uppercase(first) {
        lemma_scan_shape(tail, strict, Case::NumberableCapital, first, false);
    } else if spec_lowercase(first) {
        lemma_scan_shape(tail, strict, Case::Lower, first, false);
    } else if spec_alphanumeric(first) {
        lemma_scan_shape(tail, strict, Case::Uni, first, false);
    }
    if r == Case::Lower {
        assert forall|j: int| 0 <= j < t.len() implies word_lower(#[trigger] t[j]) by {
            if j > 0 {
                assert(t[j] == tail[j - 1]);
            }
        }
    }
    if r == Case::Upper {
        assert forall|j: int| 0 <= j < t.len() implies word_upper(#[trigger] t[j]) by {
            if j > 0 {
                assert(t[j] == tail[j - 1]);
            }
        }
    }
    if r == Case::Uni {
        assert forall|j: int| 0 <= j < t.len() implies caseless_word(#[trigger] t[j]) by {
            if j > 0 {
                assert(t[j] == tail[j - 1]);
            }
        }
    }
    if r == Case::Camel || r == Case::Pascal {
        assert forall|j: int| 0 <= j < t.len() implies cased_word(#[trigger] t[j]) by {
            if j > 0 {
                assert(t[j] == tail[j - 1]);
            }
        }
    }
    if r == Case::Snake || r == Case::Kebab || r == Case::Constant {
        let d = delim_of(r);
        assert(delim_tail_ok(tail, first, d));
        assert forall|j: int|
            0 <= j < t.len() implies delim_word(r, #[trigger] t[j]) || t[j] == d by {
            if j > 0 {
                assert(t[j] == tail[j - 1]);
            }
        }
        if t.len() == 1 {
            assert(t[t.len() - 1] == first);
        } else {
            assert(tail[tail.len() - 1] == t[t.len() - 1]);
        }
        assert forall|j: int|
            0 < j < t.len() && (#[trigger] t[j]) == d implies t[j - 1] != d by {
            assert(tail[j - 1] == t[j]);
            if j == 1 {
                assert(t[0] == first);
            } else {
                assert(tail[j - 2] == t[j - 1]);
            }
        }
        assert(delim_shape(r, t));
    }
}

/// The rewriting pass leaves a text alone when the target style casts
/// every one of its characters to itself and uses no separator glyph:
/// the plain lowercase, plain uppercase and caseless styles.
proof fn lemma_rewrite_uniform(target: Case, s: Seq<char>, i: int, sep: bool)
    requires
        target == Case::Lower || target == Case::Upper || target == Case::Uni,
        0 <= i <= s.len(),
        target == Case::Lower ==> forall|j: int| 0 <= j < s.len() ==> word_lower(#[trigger] s[j]),
        target == Case::Upper ==> forall|j: int| 0 <= j < s.len() ==> word_upper(#[trigger] s[j]),
        target == Case::Uni ==> forall|j: int| 0 <= j < s.len() ==> caseless_word(#[trigger] s[j]),
    ensures
        spec_rewrite(target, s, i, sep) == s.skip(i),
    decreases s.len() - i,
{
    if i == s.len() {
        assert(s.skip(i) =~= Seq::<char>::empty());
    } else {
        let c = s[i];
        let next_sep = i + 1 < s.len() && spec_lowercase(c) && spec_uppercase(s[i + 1]);
        lemma_rewrite_uniform(target, s, i + 1, next_sep);
        assert(spec_emit(target, c, i, sep || (i + 1 < s.len() && i != 0 && spec_uppercase(c)
            && spec_lowercase(s[i + 1]))) == seq![c]);
        assert(seq![c] + s.skip(i + 1) =~= s.skip(i));
    }
}

/// The word-boundary flag the rewriting pass carries at position `i`
/// of a text in a delimited style: up exactly after a delimiter.
pub open spec fn delim_sep_at(s: Seq<char>, d: char, i: int) -> bool {
    0 < i <= s.len() && s[i - 1] == d
}

/// The rewriting pass reproduces a text in a delimited style: each
/// delimiter is dropped and re-emitted as the target's own separator
/// before the next word character, and every word character casts to
/// itself.
proof fn lemma_rewrite_delimited(target: Case, s: Seq<char>, i: int)
    requires
        target == Case::Snake || target == Case::Kebab || target == Case::Constant,
        0 <= i <= s.len(),
        forall|j: int| 0 <= j < s.len() ==> delim_word(target, #[trigger] s[j]) || s[j] == delim_of(
            target,
        ),
        s.len() > 0 ==> s[s.len() - 1] != delim_of(target),
        forall|j: int| 0 < j < s.len() && (#[trigger] s[j]) == delim_of(target) ==> s[j - 1]
            != delim_of(target),
    ensures
        spec_rewrite(target, s, i, delim_sep_at(s, delim_of(target), i)) == if delim_sep_at(
            s,
            delim_of(target),
            i,
        ) {
            s.skip(i - 1)
        } else {
            s.skip(i)
        },
    decreases s.len() - i,
{
    let d = delim_of(target);
    let sep = delim_sep_at(s, d, i);
    if i == s.len() {
        assert(!sep);
        assert(s.skip(i) =~= Seq::<char>::empty());
    } else {
        let c = s[i];
        lemma_rewrite_delimited(target, s, i + 1);
        if c == d {
            // the delimiter itself is skipped with the flag raised, and
            // the recursive call re-emits it before the following word
            assert(!sep);
            assert(delim_sep_at(s, d, i + 1));
            assert(spec_rewrite(target, s, i, sep) == spec_rewrite(
                target,
                s,
                i + 1,
                delim_sep_at(s, d, i + 1),
            ));
        } else {
            assert(!delim_sep_at(s, d, i + 1));
            assert(spec_emit(
                target,
                c,
                i,
                sep || (i + 1 < s.len() && i != 0 && spec_uppercase(c) && spec_lowercase(s[i + 1])),
            ) == seq![c]);
            if sep {
                assert(seq![d] + seq![c] + s.skip(i + 1) =~= s.skip(i - 1));
            } else {
                assert(seq![c] + s.skip(i + 1) =~= s.skip(i));
            }
        }
    }
}

/// The word-boundary flag the rewriting pass carries at position `i`
/// of a text in a cased style: up at the start of a pascal text, and
/// at an uppercase letter right after a lowercase one.
pub open spec fn cased_sep_at(target: Case, s: Seq<char>, i: int) -> bool {
    if i == 0 {
        target == Case::Pascal
    } else if i < s.len() {
        spec_lowercase(s[i - 1]) && spec_uppercase(s[i])
    } else {
        false
    }
}

/// The rewriting pass reproduces a text in a cased style, provided
/// every uppercase letter stands where the pass puts a word boundary:
/// at the start of a pascal text, or adjacent to a lowercase letter.
proof fn lemma_rewrite_cased(target: Case, s: Seq<char>, i: int)
    requires
        target == Case::Camel || target == Case::Pascal,
        0 <= i <= s.len(),
        forall|j: int| 0 <= j < s.len() ==> cased_word(#[trigger] s[j]),
        forall|j: int|
            0 <= j < s.len() && spec_uppercase(#[trigger] s[j]) ==> (j == 0 && target
                == Case::Pascal) || (j > 0 && (spec_lowercase(s[j - 1]) || (j + 1 < s.len()
                && spec_lowercase(s[j + 1])))),
        target == Case::Pascal && s.len() > 0 ==> spec_uppercase(s[0]),
    ensures
        spec_rewrite(target, s, i, cased_sep_at(target, s, i)) == s.skip(i),
    decreases s.len() - i,
{
    if i == s.len() {
        assert(s.skip(i) =~= Seq::<char>::empty());
    } else {
        let c = s[i];
        lemma_rewrite_cased(target, s, i + 1);
        let boundary = cased_sep_at(target, s, i) || (i + 1 < s.len() && i != 0 && spec_uppercase(
            c,
        ) && spec_lowercase(s[i + 1]));
        assert(spec_emit(target, c, i, boundary) == seq![c]);
        assert(seq![c] + s.skip(i + 1) =~= s.skip(i));
    }
}

/// Law: every style is compatible with itself.
pub proof fn lemma_compatible_reflexive(s: Case)
    ensures
        spec_compatible(s, s),
{
}

/// Law: every style satisfies the absent requirement, while the absent
/// style satisfies no requirement but the absent one.
pub proof fn lemma_unknown_absorption(s: Case)
    ensures
        spec_compatible(s, Case::Unknown),
        s != Case::Unknown ==> !spec_compatible(Case::Unknown, s),
{
}

/// Law: the compatibility relation holds of a distinct pair of styles
/// exactly on the seven fixed edges of the lattice.
pub proof fn lemma_compatible_exact(a: Case, b: Case)
    requires
        a != b,
        b != Case::Unknown,
    ensures
        spec_compatible(a, b) <==> {
            ||| (a == Case::Lower && b == Case::Camel)
            ||| (a == Case::Lower && b == Case::Kebab)
            ||| (a == Case::Lower && b == Case::Snake)
            ||| (a == Case::NumberableCapital && b == Case::Constant)
            ||| (a == Case::NumberableCapital && b == Case::Pascal)
            ||| (a == Case::NumberableCapital && b == Case::Upper)
            ||| (a == Case::Upper && b == Case::Constant)
        },
{
}

/// Law: a text that begins with a delimiter is never classified.
pub proof fn lemma_leading_delimiter(s: Seq<char>, strict: bool)
    requires
        s.len() > 0,
        s[0] == '-' || s[0] == '_',
    ensures
        spec_identify(s, strict) == Case::Unknown,
{
}

/// Law: a text that ends with a delimiter is never classified.
pub proof fn lemma_trailing_delimiter(s: Seq<char>, strict: bool)
    requires
        s.len() > 0,
        s[s.len() - 1] == '-' || s[s.len() - 1] == '_',
    ensures
        spec_identify(s, strict) == Case::Unknown,
{
    if s.len() > 1 && (spec_uppercase(s[0]) || spec_lowercase(s[0]) || spec_alphanumeric(s[0])) {
        let tail = s.drop_first();
        assert(tail[tail.len() - 1] == s[s.len() - 1]);
        if spec_uppercase(s[0]) {
            lemma_scan_trailing(tail, strict, Case::NumberableCapital, s[0], false);
        } else if spec_lowercase(s[0]) {
            lemma_scan_trailing(tail, strict, Case::Lower, s[0], false);
        } else {
            lemma_scan_trailing(tail, strict, Case::Uni, s[0], false);
        }
    }
}

/// Law: a text with two adjacent delimiters is never classified.
pub proof fn lemma_doubled_delimiter(s: Seq<char>, strict: bool, j: int)
    requires
        0 <= j,
        j + 1 < s.len(),
        s[j] == s[j + 1],
        s[j] == '-' || s[j] == '_',
    ensures
        spec_identify(s, strict) == Case::Unknown,
{
    if j > 0 && (spec_uppercase(s[0]) || spec_lowercase(s[0]) || spec_alphanumeric(s[0])) {
        let tail = s.drop_first();
        assert(forall|k: int| 0 <= k < tail.len() ==> #[trigger] tail[k] == s[k + 1]);
        if spec_uppercase(s[0]) {
            lemma_scan_doubled(tail, strict, Case::NumberableCapital, s[0], false, j - 1);
        } else if spec_lowercase(s[0]) {
            lemma_scan_doubled(tail, strict, Case::Lower, s[0], false, j - 1);
        } else {
            lemma_scan_doubled(tail, strict, Case::Uni, s[0], false, j - 1);
        }
    }
}

/// Law: every style leaves the empty text empty.
pub proof fn lemma_convert_empty(target: Case)
    ensures
        spec_convert(target, Seq::<char>::empty()) == Seq::<char>::empty(),
{
}

/// Law: the absent target style leaves every text unchanged.
pub proof fn lemma_convert_unknown(t: Seq<char>)
    ensures
        spec_convert(Case::Unknown, t) == t,
{
}

/// Law: a text classified as lowercase is a fixed point of rewriting
/// to the lowercase style.
pub proof fn lemma_convert_fixed_lower(t: Seq<char>)
    requires
        spec_identify(t, false) == Case::Lower,
    ensures
        spec_convert(Case::Lower, t) == t,
{
    lemma_identify_shape(t, false);
    lemma_rewrite_uniform(Case::Lower, t, 0, false);
    assert(t.skip(0) =~= t);
}

/// Law: a text classified as UPPERCASE is a fixed point of rewriting
/// to the uppercase style.
pub proof fn lemma_convert_fixed_upper(t: Seq<char>)
    requires
        spec_identify(t, false) == Case::Upper,
    ensures
        spec_convert(Case::Upper, t) == t,
{
    lemma_identify_shape(t, false);
    lemma_rewrite_uniform(Case::Upper, t, 0, false);
    assert(t.skip(0) =~= t);
}

/// Law: a caseless text is a fixed point of rewriting to the caseless
/// style.
pub proof fn lemma_convert_fixed_uni(t: Seq<char>)
    requires
        spec_identify(t, false) == Case::Uni,
    ensures
        spec_convert(Case::Uni, t) == t,
{
    lemma_identify_shape(t, false);
    lemma_rewrite_uniform(Case::Uni, t, 0, false);
    assert(t.skip(0) =~= t);
}

/// Law: a text classified as snake_case is a fixed point of rewriting
/// to the snake style.
pub proof fn lemma_convert_fixed_snake(t: Seq<char>)
    requires
        spec_identify(t, false) == Case::Snake,
    ensures
        spec_convert(Case::Snake, t) == t,
{
    lemma_identify_shape(t, false);
    lemma_rewrite_delimited(Case::Snake, t, 0);
    assert(t.skip(0) =~= t);
}

/// Law: a text classified as kebab-case is a fixed point of rewriting
/// to the kebab style.
pub proof fn lemma_convert_fixed_kebab(t: Seq<char>)
    requires
        spec_identify(t, false) == Case::Kebab,
    ensures
        spec_convert(Case::Kebab, t) == t,
{
    lemma_identify_shape(t, false);
    lemma_rewrite_delimited(Case::Kebab, t, 0);
    assert(t.skip(0) =~= t);
}

/// Law: a text classified as CONSTANT_CASE is a fixed point of
/// rewriting to the constant style.
pub proof fn lemma_convert_fixed_constant(t: Seq<char>)
    requires
        spec_identify(t, false) == Case::Constant,
    ensures
        spec_convert(Case::Constant, t) == t,
{
    lemma_identify_shape(t, false);
    lemma_rewrite_delimited(Case::Constant, t, 0);
    assert(t.skip(0) =~= t);
}

/// Law: a text classified as camelCase is a fixed point of rewriting
/// to the camel style, provided every uppercase letter in it stands
/// right after or right before a lowercase letter. Without that
/// proviso the law fails: rewriting moves a word boundary inside an
/// uppercase run or after a digit, as in `aXYZ` or `a1B`.
pub proof fn lemma_convert_fixed_camel(t: Seq<char>)
    requires
        spec_identify(t, false) == Case::Camel,
        forall|j: int|
            0 <= j < t.len() && spec_uppercase(#[trigger] t[j]) ==> (j > 0 && spec_lowercase(
                t[j - 1],
            )) || (j + 1 < t.len() && spec_lowercase(t[j + 1])),
    ensures
        spec_convert(Case::Camel, t) == t,
{
    lemma_identify_shape(t, false);
    lemma_rewrite_cased(Case::Camel, t, 0);
    assert(t.skip(0) =~= t);
}

/// Law: a text classified as PascalCase is a fixed point of rewriting
/// to the pascal style, provided every uppercase letter after the
/// first character stands right after or right before a lowercase
/// letter. Without that proviso the law fails, as in `ABCd`.
pub proof fn lemma_convert_fixed_pascal(t: Seq<char>)
    requires
        spec_identify(t, false) == Case::Pascal,
        forall|j: int|
            0 < j < t.len() && spec_uppercase(#[trigger] t[j]) ==> spec_lowercase(t[j - 1]) || (j
                + 1 < t.len() && spec_lowercase(t[j + 1])),
    ensures
        spec_convert(Case::Pascal, t) == t,
{
    lemma_identify_shape(t, false);
    lemma_rewrite_cased(Case::Pascal, t, 0);
    assert(t.skip(0) =~= t);
}

} // verus!
