//! The diagnostics an invocation can fail with.
//!
//! Every error aborts the whole invocation: no partial identifier is built and
//! no partial substitution happens. Each error carries the position handle of
//! the offending token, so the caller can anchor the diagnostic there.

use vstd::prelude::*;

verus! {

/// A compile-time diagnostic of this facility.
#[derive(Clone, Copy, Debug, PartialEq, Eq, Structural)]
pub enum Error {
    /// The next token cannot start a fragment.
    ExpectedFragment { pos: u32 },
    /// A byte-string, byte, or floating-point literal was used as a fragment.
    UnsupportedFragmentKind { pos: u32 },
    /// A quoted-string or character literal holds a character outside
    /// ASCII alphanumerics and `_`.
    InvalidFragmentCharacters { pos: u32 },
    /// Zero fragments were supplied.
    EmptyIdentifier { pos: u32 },
    /// Exactly one fragment was supplied, and it is a boolean.
    IdentifierIsSingleBoolean { pos: u32 },
    /// Exactly one fragment was supplied, and it is an integer.
    IdentifierIsOnlyInteger { pos: u32 },
    /// More than one fragment was supplied, and the first is an integer.
    IdentifierStartsWithInteger { pos: u32 },
    /// The invocation does not have the shape
    /// `NAME = FRAGMENT ("," FRAGMENT)* ","? "{" STATEMENTS "}"`.
    MalformedInput { pos: u32 },
}

impl Error {
    /// The position handle of the offending token.
    pub open spec fn spec_pos(self) -> u32 {
        match self {
            Error::ExpectedFragment { pos } => pos,
            Error::UnsupportedFragmentKind { pos } => pos,
            Error::InvalidFragmentCharacters { pos } => pos,
            Error::EmptyIdentifier { pos } => pos,
            Error::IdentifierIsSingleBoolean { pos } => pos,
            Error::IdentifierIsOnlyInteger { pos } => pos,
            Error::IdentifierStartsWithInteger { pos } => pos,
            Error::MalformedInput { pos } => pos,
        }
    }

    /// Returns the position handle the diagnostic is anchored at.
    pub fn pos(&self) -> (p: u32)
        ensures
            p == self.spec_pos(),
    {
        match self {
            Error::ExpectedFragment { pos } => *pos,
            Error::UnsupportedFragmentKind { pos } => *pos,
            Error::InvalidFragmentCharacters { pos } => *pos,
            Error::EmptyIdentifier { pos } => *pos,
            Error::IdentifierIsSingleBoolean { pos } => *pos,
            Error::IdentifierIsOnlyInteger { pos } => *pos,
            Error::IdentifierStartsWithInteger { pos } => *pos,
            Error::MalformedInput { pos } => *pos,
        }
    }

    /// Returns the human-readable message of the diagnostic.
    pub fn message(&self) -> &'static str {
        match self {
            Error::ExpectedFragment { .. } => {
                "expected an identifier, a `_`, an integer, a boolean, \
                 a string literal, or a character literal; to use a reserved \
                 word, quote it or use its escaped form"
            },
            Error::UnsupportedFragmentKind { .. } => {
                "byte strings, bytes and floats cannot appear in an identifier"
            },
            Error::InvalidFragmentCharacters { .. } => {
                "string and character literals in an identifier can only \
                 contain ASCII letters, digits and `_`"
            },
            Error::EmptyIdentifier { .. } => "expected at least one fragment",
            Error::IdentifierIsSingleBoolean { .. } => {
                "an identifier cannot consist of only one boolean"
            },
            Error::IdentifierIsOnlyInteger { .. } => {
                "an identifier cannot consist of only one integer"
            },
            Error::IdentifierStartsWithInteger { .. } => {
                "an identifier cannot start with an integer"
            },
            Error::MalformedInput { .. } => {
                "expected `NAME = FRAGMENT, ... { STATEMENTS }`"
            },
        }
    }
}

} // verus!
