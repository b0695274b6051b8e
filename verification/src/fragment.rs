//! The fragment parser: classifying one token as one fragment.
//!
//! A fragment is one atomic piece of a synthesized identifier. This module
//! fixes which tokens are legal fragments and what text each one contributes.

use vstd::prelude::*;

use crate::error::Error;
use crate::token::{tok_pos, Token};

verus! {

/// One atomic piece of a synthesized identifier.
#[derive(Debug, PartialEq)]
pub enum Fragment {
    /// A plain name; for an escaped reserved word the escape marker is
    /// already stripped.
    Name { text: Vec<u8>, pos: u32 },
    /// A lone `_`, contributing literally `_`.
    Underscore { pos: u32 },
    /// An integer literal, contributing its decimal digit text.
    Integer { digits: Vec<u8>, pos: u32 },
    /// A boolean literal, contributing `true` or `false`.
    Boolean { value: bool, pos: u32 },
    /// A quoted string of ASCII alphanumerics and `_`, contributing its
    /// content.
    QuotedText { text: Vec<u8>, pos: u32 },
    /// A character literal in `[A-Za-z0-9_]`, contributing that character.
    Character { value: u8, pos: u32 },
}

/// The mathematical model of a fragment.
#[verifier::ext_equal]
pub enum FragView {
    Name { text: Seq<u8>, pos: u32 },
    Underscore { pos: u32 },
    Integer { digits: Seq<u8>, pos: u32 },
    Boolean { value: bool, pos: u32 },
    QuotedText { text: Seq<u8>, pos: u32 },
    Character { value: u8, pos: u32 },
}

impl View for Fragment {
    type V = FragView;

    open spec fn view(&self) -> FragView {
        match *self {
            Fragment::Name { text, pos } => FragView::Name { text: text@, pos },
            Fragment::Underscore { pos } => FragView::Underscore { pos },
            Fragment::Integer { digits, pos } => FragView::Integer { digits: digits@, pos },
            Fragment::Boolean { value, pos } => FragView::Boolean { value, pos },
            Fragment::QuotedText { text, pos } => FragView::QuotedText { text: text@, pos },
            Fragment::Character { value, pos } => FragView::Character { value, pos },
        }
    }
}

/// The source-position handle of a fragment.
pub open spec fn frag_pos(f: FragView) -> u32 {
    match f {
        FragView::Name { pos, .. } => pos,
        FragView::Underscore { pos } => pos,
        FragView::Integer { pos, .. } => pos,
        FragView::Boolean { pos, .. } => pos,
        FragView::QuotedText { pos, .. } => pos,
        FragView::Character { pos, .. } => pos,
    }
}

/// Whether a byte may stand in an identifier contributed by a quoted or
/// character literal: ASCII alphanumeric or `_`.
pub open spec fn is_ident_byte(b: u8) -> bool {
    (48 <= b <= 57) || (65 <= b <= 90) || (97 <= b <= 122) || b == 95
}

/// Whether a character may stand in an identifier contributed by a character
/// literal: ASCII alphanumeric or `_`.
pub open spec fn is_ident_char(c: char) -> bool {
    is_ident_byte((c as u32) as u8) && (c as u32) < 128
}

/// The byte text of a boolean literal.
pub open spec fn bool_text(value: bool) -> Seq<u8> {
    if value {
        seq![116u8, 114u8, 117u8, 101u8]
    } else {
        seq![102u8, 97u8, 108u8, 115u8, 101u8]
    }
}

/// The text a fragment contributes to the synthesized identifier.
pub open spec fn contribution(f: FragView) -> Seq<u8> {
    match f {
        FragView::Name { text, .. } => text,
        FragView::Underscore { .. } => seq![95u8],
        FragView::Integer { digits, .. } => digits,
        FragView::Boolean { value, .. } => bool_text(value),
        FragView::QuotedText { text, .. } => text,
        FragView::Character { value, .. } => seq![value],
    }
}

/// Well-formedness of a fragment: a name or integer token is never empty, and
/// quoted or character content was checked at parse time.
pub open spec fn frag_wf(f: FragView) -> bool {
    match f {
        FragView::Name { text, .. } => text.len() > 0,
        FragView::Underscore { .. } => true,
        FragView::Integer { digits, .. } => digits.len() > 0,
        FragView::Boolean { .. } => true,
        FragView::QuotedText { text, .. } => forall|i: int|
            0 <= i < text.len() ==> is_ident_byte(#[trigger] text[i]),
        FragView::Character { value, .. } => is_ident_byte(value),
    }
}

/// What the fragment parser must make of one token: the fragment it
/// classifies as, or the diagnostic it fails with.
pub open spec fn frag_outcome(t: Token) -> Result<FragView, Error> {
    match t {
        Token::Ident { text, escaped, pos } => Ok(FragView::Name { text: text@, pos }),
        Token::Underscore { pos } => Ok(FragView::Underscore { pos }),
        Token::IntLit { digits, pos } => Ok(FragView::Integer { digits: digits@, pos }),
        Token::BoolLit { value, pos } => Ok(FragView::Boolean { value, pos }),
        Token::StrLit { text, pos } => {
            if forall|i: int| 0 <= i < text@.len() ==> is_ident_byte(#[trigger] text@[i]) {
                Ok(FragView::QuotedText { text: text@, pos })
            } else {
                Err(Error::InvalidFragmentCharacters { pos })
            }
        },
        Token::CharLit { value, pos } => {
            if is_ident_char(value) {
                Ok(FragView::Character { value: (value as u32) as u8, pos })
            } else {
                Err(Error::InvalidFragmentCharacters { pos })
            }
        },
        Token::ByteStrLit { pos } => Err(Error::UnsupportedFragmentKind { pos }),
        Token::ByteLit { pos } => Err(Error::UnsupportedFragmentKind { pos }),
        Token::FloatLit { pos } => Err(Error::UnsupportedFragmentKind { pos }),
        _ => Err(Error::ExpectedFragment { pos: tok_pos(t) }),
    }
}

/// Checks that every byte of `text` may stand in an identifier.
fn all_ident_bytes(text: &Vec<u8>) -> (r: bool)
    ensures
        r <==> forall|i: int| 0 <= i < text@.len() ==> is_ident_byte(#[trigger] text@[i]),
{
    let mut i: usize = 0;
    while i < text.len()
        invariant
            i <= text@.len(),
            forall|j: int| 0 <= j < i ==> is_ident_byte(#[trigger] text@[j]),
        decreases text@.len() - i,
    {
        let b = text[i];
        if !((48 <= b && b <= 57) || (65 <= b && b <= 90) || (97 <= b && b <= 122) || b == 95) {
            return false;
        }
        i += 1;
    }
    true
}

/// Consumes one token as one fragment, enforcing fragment-level legality.
pub fn fragment_from_token(t: &Token) -> (r: Result<Fragment, Error>)
    ensures
        match r {
            Ok(f) => frag_outcome(*t) == Ok::<FragView, Error>(f@),
            Err(e) => frag_outcome(*t) == Err::<FragView, Error>(e),
        },
{
    match t {
        Token::Ident { text, pos, .. } => Ok(Fragment::Name { text: text.clone(), pos: *pos }),
        Token::Underscore { pos } => Ok(Fragment::Underscore { pos: *pos }),
        Token::IntLit { digits, pos } => Ok(
            Fragment::Integer { digits: digits.clone(), pos: *pos },
        ),
        Token::BoolLit { value, pos } => Ok(Fragment::Boolean { value: *value, pos: *pos }),
        Token::StrLit { text, pos } => {
            if all_ident_bytes(text) {
                Ok(Fragment::QuotedText { text: text.clone(), pos: *pos })
            } else {
                Err(Error::InvalidFragmentCharacters { pos: *pos })
            }
        },
        Token::CharLit { value, pos } => {
            let u = *value as u32;
            if u < 128 {
                let b = u as u8;
                if (48 <= b && b <= 57) || (65 <= b && b <= 90) || (97 <= b && b <= 122) || b == 95
                {
                    Ok(Fragment::Character { value: b, pos: *pos })
                } else {
                    Err(Error::InvalidFragmentCharacters { pos: *pos })
                }
            } else {
                Err(Error::InvalidFragmentCharacters { pos: *pos })
            }
        },
        Token::ByteStrLit { pos } => Err(Error::UnsupportedFragmentKind { pos: *pos }),
        Token::ByteLit { pos } => Err(Error::UnsupportedFragmentKind { pos: *pos }),
        Token::FloatLit { pos } => Err(Error::UnsupportedFragmentKind { pos: *pos }),
        _ => Err(Error::ExpectedFragment { pos: crate::token::token_pos(t) }),
    }
}

} // verus!
