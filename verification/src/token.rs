//! The library's model of the host language's token trees.
//!
//! The host compiler lexes the invocation and hands the library a sequence of
//! structured tokens; positions are opaque handles (`u32`) that the caller can
//! map back to real source spans for diagnostics.

use vstd::prelude::*;

verus! {

/// The bracket shape of a token group.
#[derive(Clone, Copy, Debug, PartialEq, Eq, Structural)]
pub enum Delim {
    /// `{ ... }`
    Brace,
    /// `( ... )`
    Parenthesis,
    /// `[ ... ]`
    Bracket,
    /// An invisible group introduced by macro expansion.
    Invisible,
}

/// One token of the host language, with nested groups forming a tree.
#[derive(Debug, PartialEq)]
pub enum Token {
    /// A plain identifier; `escaped` marks the escaped-reserved-word form,
    /// whose marker is already stripped from `text`.
    Ident { text: Vec<u8>, escaped: bool, pos: u32 },
    /// A reserved word of the host language, usable only inside the code block.
    Keyword { text: Vec<u8>, pos: u32 },
    /// A lone `_`.
    Underscore { pos: u32 },
    /// `true` or `false`.
    BoolLit { value: bool, pos: u32 },
    /// An integer literal, reduced to its decimal digit text.
    IntLit { digits: Vec<u8>, pos: u32 },
    /// A quoted string literal; `text` is its content.
    StrLit { text: Vec<u8>, pos: u32 },
    /// A character literal.
    CharLit { value: char, pos: u32 },
    /// A byte-string literal.
    ByteStrLit { pos: u32 },
    /// A byte literal.
    ByteLit { pos: u32 },
    /// A floating-point literal.
    FloatLit { pos: u32 },
    /// Any other literal kind of the host language.
    OtherLit { pos: u32 },
    /// A punctuation character; `joint` says it is glued to the next punct.
    Punct { ch: char, joint: bool, pos: u32 },
    /// A bracketed group of tokens.
    Group { delim: Delim, tokens: Vec<Token>, pos: u32 },
}

/// The source-position handle of a token.
pub open spec fn tok_pos(t: Token) -> u32 {
    match t {
        Token::Ident { pos, .. } => pos,
        Token::Keyword { pos, .. } => pos,
        Token::Underscore { pos } => pos,
        Token::BoolLit { pos, .. } => pos,
        Token::IntLit { pos, .. } => pos,
        Token::StrLit { pos, .. } => pos,
        Token::CharLit { pos, .. } => pos,
        Token::ByteStrLit { pos } => pos,
        Token::ByteLit { pos } => pos,
        Token::FloatLit { pos } => pos,
        Token::OtherLit { pos } => pos,
        Token::Punct { pos, .. } => pos,
        Token::Group { pos, .. } => pos,
    }
}

/// Structural equality of tokens: equal kind, texts, positions, and children.
pub open spec fn tok_eq(a: Token, b: Token) -> bool
    decreases a,
{
    match (a, b) {
        (Token::Ident { text: t1, escaped: e1, pos: p1 },
         Token::Ident { text: t2, escaped: e2, pos: p2 }) => t1@ == t2@ && e1 == e2 && p1 == p2,
        (Token::Keyword { text: t1, pos: p1 },
         Token::Keyword { text: t2, pos: p2 }) => t1@ == t2@ && p1 == p2,
        (Token::Underscore { pos: p1 }, Token::Underscore { pos: p2 }) => p1 == p2,
        (Token::BoolLit { value: v1, pos: p1 },
         Token::BoolLit { value: v2, pos: p2 }) => v1 == v2 && p1 == p2,
        (Token::IntLit { digits: d1, pos: p1 },
         Token::IntLit { digits: d2, pos: p2 }) => d1@ == d2@ && p1 == p2,
        (Token::StrLit { text: t1, pos: p1 },
         Token::StrLit { text: t2, pos: p2 }) => t1@ == t2@ && p1 == p2,
        (Token::CharLit { value: v1, pos: p1 },
         Token::CharLit { value: v2, pos: p2 }) => v1 == v2 && p1 == p2,
        (Token::ByteStrLit { pos: p1 }, Token::ByteStrLit { pos: p2 }) => p1 == p2,
        (Token::ByteLit { pos: p1 }, Token::ByteLit { pos: p2 }) => p1 == p2,
        (Token::FloatLit { pos: p1 }, Token::FloatLit { pos: p2 }) => p1 == p2,
        (Token::OtherLit { pos: p1 }, Token::OtherLit { pos: p2 }) => p1 == p2,
        (Token::Punct { ch: c1, joint: j1, pos: p1 },
         Token::Punct { ch: c2, joint: j2, pos: p2 }) => c1 == c2 && j1 == j2 && p1 == p2,
        (Token::Group { delim: d1, tokens: t1, pos: p1 },
         Token::Group { delim: d2, tokens: t2, pos: p2 }) => {
            &&& d1 == d2
            &&& p1 == p2
            &&& t1@.len() == t2@.len()
            &&& forall|i: int| 0 <= i < t1@.len() ==> tok_eq(#[trigger] t1@[i], t2@[i])
        },
        _ => false,
    }
}

/// Structural equality, lifted to token sequences.
pub open spec fn seq_tok_eq(a: Seq<Token>, b: Seq<Token>) -> bool {
    a.len() == b.len() && forall|i: int| 0 <= i < a.len() ==> tok_eq(#[trigger] a[i], b[i])
}

/// Whether a token is the comma separating two fragments.
pub open spec fn is_comma(t: Token) -> bool {
    t matches Token::Punct { ch, .. } && ch == ','
}

/// Whether a token is the lone `=` between the placeholder and the fragments.
pub open spec fn is_eq_punct(t: Token) -> bool {
    t matches Token::Punct { ch, joint, .. } && ch == '=' && !joint
}

/// Whether a token is a brace-delimited group, i.e. starts the code block.
pub open spec fn is_brace_group(t: Token) -> bool {
    t matches Token::Group { delim, .. } && delim == Delim::Brace
}

/// Returns the position handle of a token.
pub fn token_pos(t: &Token) -> (p: u32)
    ensures
        p == tok_pos(*t),
{
    match t {
        Token::Ident { pos, .. } => *pos,
        Token::Keyword { pos, .. } => *pos,
        Token::Underscore { pos } => *pos,
        Token::BoolLit { pos, .. } => *pos,
        Token::IntLit { pos, .. } => *pos,
        Token::StrLit { pos, .. } => *pos,
        Token::CharLit { pos, .. } => *pos,
        Token::ByteStrLit { pos } => *pos,
        Token::ByteLit { pos } => *pos,
        Token::FloatLit { pos } => *pos,
        Token::OtherLit { pos } => *pos,
        Token::Punct { pos, .. } => *pos,
        Token::Group { pos, .. } => *pos,
    }
}

/// Byte-for-byte equality of two byte vectors.
pub fn bytes_eq(a: &Vec<u8>, b: &Vec<u8>) -> (r: bool)
    ensures
        r <==> a@ == b@,
{
    if a.len() != b.len() {
        return false;
    }
    let mut i: usize = 0;
    while i < a.len()
        invariant
            i <= a.len(),
            a.len() == b.len(),
            forall|j: int| 0 <= j < i ==> a@[j] == b@[j],
        decreases a.len() - i,
    {
        if a[i] != b[i] {
            return false;
        }
        i += 1;
    }
    assert(a@ =~= b@);
    true
}

} // verus!
