//! The closed set of recognised naming styles, their compatibility
//! relation, and their display labels.

use vstd::prelude::*;

verus! {

/// A naming style of an identifier.
///
/// Some styles are supersets of others: a name in `Case::Lower` is, for
/// example, also acceptable wherever `Case::Camel` is required. See
/// [`Case::is_compatible_with`].
#[derive(Debug, Copy, Clone, Eq, PartialEq, Hash, Structural)]
pub enum Case {
    /// No recognised style.
    Unknown,
    /// camelCase
    Camel,
    /// CONSTANT_CASE
    Constant,
    /// kebab-case
    Kebab,
    /// lowercase
    Lower,
    /// A single capital letter, possibly followed by digits: A, B1, C42
    NumberableCapital,
    /// PascalCase
    Pascal,
    /// snake_case
    Snake,
    /// Alphanumeric characters that are neither uppercase nor lowercase
    /// (digits, syllabaries, ideographs)
    Uni,
    /// UPPERCASE
    Upper,
}

/// The compatibility relation between styles: a name that respects `a`
/// also respects `b` exactly when this holds. It is reflexive, every
/// style satisfies the absent requirement `Unknown`, and a handful of
/// fixed pairs hold besides: a plain lowercase word fits the camel,
/// kebab and snake conventions, a single capital fits the constant,
/// pascal and upper conventions, and an uppercase word fits the
/// constant convention.
pub open spec fn spec_compatible(a: Case, b: Case) -> bool {
    ||| a == b
    ||| b == Case::Unknown
    ||| (a == Case::Lower && (b == Case::Camel || b == Case::Kebab || b == Case::Snake))
    ||| (a == Case::NumberableCapital && (b == Case::Constant || b == Case::Pascal || b
        == Case::Upper))
    ||| (a == Case::Upper && b == Case::Constant)
}

/// The display label of each style.
pub open spec fn spec_label(c: Case) -> Seq<char> {
    match c {
        Case::Unknown => "unknown case"@,
        Case::Camel => "camelCase"@,
        Case::Constant => "CONSTANT_CASE"@,
        Case::Kebab => "kebab-case"@,
        Case::Lower => "lowercase"@,
        Case::NumberableCapital => "numberable capital case"@,
        Case::Pascal => "PascalCase"@,
        Case::Snake => "snake_case"@,
        Case::Uni => "unicase"@,
        Case::Upper => "UPPERCASE"@,
    }
}

impl Case {
    /// Returns `true` if a name that respects `self` also respects
    /// `other`.
    ///
    /// For example, a name in [`Case::Lower`] is also in
    /// [`Case::Camel`], [`Case::Kebab`] and [`Case::Snake`], so
    /// [`Case::Lower`] is compatible with each of them. Any style is
    /// compatible with itself and with `Case::Unknown`.
    pub fn is_compatible_with(self, other: Case) -> (result: bool)
        ensures
            result == spec_compatible(self, other),
    {
        self == other || other == Case::Unknown || (self == Case::Lower && (other == Case::Camel
            || other == Case::Kebab || other == Case::Snake)) || (self == Case::NumberableCapital
            && (other == Case::Constant || other == Case::Pascal || other == Case::Upper)) || (self
            == Case::Upper && other == Case::Constant)
    }

    /// The fixed human-readable label of this style, for diagnostics.
    pub fn label(self) -> (result: &'static str)
        ensures
            result@ == spec_label(self),
    {
        match self {
            Case::Unknown => "unknown case",
            Case::Camel => "camelCase",
            Case::Constant => "CONSTANT_CASE",
            Case::Kebab => "kebab-case",
            Case::Lower => "lowercase",
            Case::NumberableCapital => "numberable capital case",
            Case::Pascal => "PascalCase",
            Case::Snake => "snake_case",
            Case::Uni => "unicase",
            Case::Upper => "UPPERCASE",
        }
    }
}

impl Default for Case {
    /// The default style is the absent one.
    fn default() -> (result: Case)
        ensures
            result == Case::Unknown,
    {
        Case::Unknown
    }
}

} // verus!
