//! The tree rewriter: scoped, exact-match substitution of one identifier.
//!
//! Every identifier token structurally equal to the placeholder is replaced by
//! the built identifier, carrying the built identifier's own position; every
//! other token passes through unchanged. The walk recurses into every nested
//! group depth-first, left-to-right, and performs no evaluation: a nested
//! invocation of the facility is rewritten like any other token span, never
//! expanded.

use vstd::prelude::*;

use crate::token::{seq_tok_eq, tok_eq, Token};

verus! {

broadcast use vstd::std_specs::vec::group_vec_axioms;

/// Whether a token is an identifier structurally equal to the placeholder.
pub open spec fn is_match(t: Token, ph_text: Seq<u8>, ph_escaped: bool) -> bool {
    t matches Token::Ident { text, escaped, .. } && text@ == ph_text && escaped == ph_escaped
}

/// Whether a token is the replacement: the built identifier, unescaped, at the
/// built identifier's own position.
pub open spec fn is_replacement(t: Token, rep_text: Seq<u8>, rep_pos: u32) -> bool {
    t matches Token::Ident { text, escaped, pos } && text@ == rep_text && !escaped && pos == rep_pos
}

/// The substitution relation: `b` is `a` with every token matching the
/// placeholder, at any depth, replaced by the built identifier, and every
/// other token unchanged.
pub open spec fn rewrites_to(
    a: Token,
    b: Token,
    ph_text: Seq<u8>,
    ph_escaped: bool,
    rep_text: Seq<u8>,
    rep_pos: u32,
) -> bool
    decreases a,
{
    if is_match(a, ph_text, ph_escaped) {
        is_replacement(b, rep_text, rep_pos)
    } else {
        match a {
            Token::Group { delim, tokens, pos } => {
                &&& b matches Token::Group { delim: d2, tokens: t2, pos: p2 }
                &&& d2 == delim
                &&& p2 == pos
                &&& t2@.len() == tokens@.len()
                &&& forall|i: int|
                    0 <= i < tokens@.len() ==> rewrites_to(
                        #[trigger] tokens@[i],
                        t2@[i],
                        ph_text,
                        ph_escaped,
                        rep_text,
                        rep_pos,
                    )
            },
            _ => tok_eq(b, a),
        }
    }
}

/// The substitution relation, lifted to token sequences.
pub open spec fn seq_rewrites_to(
    a: Seq<Token>,
    b: Seq<Token>,
    ph_text: Seq<u8>,
    ph_escaped: bool,
    rep_text: Seq<u8>,
    rep_pos: u32,
) -> bool {
    &&& a.len() == b.len()
    &&& forall|i: int|
        0 <= i < a.len() ==> rewrites_to(#[trigger] a[i], b[i], ph_text, ph_escaped, rep_text, rep_pos)
}

/// Whether any token of the tree, at any depth, matches the placeholder.
pub open spec fn contains_match(t: Token, ph_text: Seq<u8>, ph_escaped: bool) -> bool
    decreases t,
{
    ||| is_match(t, ph_text, ph_escaped)
    ||| (t matches Token::Group { tokens, .. } && exists|i: int|
        0 <= i < tokens@.len() && contains_match(#[trigger] tokens@[i], ph_text, ph_escaped))
}

/// Whether any token of the sequence, at any depth, matches the placeholder.
pub open spec fn seq_contains_match(ts: Seq<Token>, ph_text: Seq<u8>, ph_escaped: bool) -> bool {
    exists|i: int| 0 <= i < ts.len() && contains_match(#[trigger] ts[i], ph_text, ph_escaped)
}

/// A block without an occurrence of the placeholder is rewritten to itself:
/// re-invoking on an already rewritten block is a no-op.
pub proof fn lemma_rewrite_without_match_is_identity(
    a: Token,
    b: Token,
    ph_text: Seq<u8>,
    ph_escaped: bool,
    rep_text: Seq<u8>,
    rep_pos: u32,
)
    requires
        rewrites_to(a, b, ph_text, ph_escaped, rep_text, rep_pos),
        !contains_match(a, ph_text, ph_escaped),
    ensures
        tok_eq(b, a),
    decreases a,
{
    match a {
        Token::Group { tokens, .. } => {
            let t2 = b->tokens;
            assert forall|i: int| 0 <= i < tokens@.len() implies tok_eq(
                #[trigger] t2@[i],
                tokens@[i],
            ) by {
                lemma_rewrite_without_match_is_identity(
                    tokens@[i],
                    t2@[i],
                    ph_text,
                    ph_escaped,
                    rep_text,
                    rep_pos,
                );
            }
        },
        _ => {},
    }
}

/// The sequence form of the no-op law.
pub proof fn lemma_seq_rewrite_without_match_is_identity(
    a: Seq<Token>,
    b: Seq<Token>,
    ph_text: Seq<u8>,
    ph_escaped: bool,
    rep_text: Seq<u8>,
    rep_pos: u32,
)
    requires
        seq_rewrites_to(a, b, ph_text, ph_escaped, rep_text, rep_pos),
        !seq_contains_match(a, ph_text, ph_escaped),
    ensures
        seq_tok_eq(b, a),
{
    assert forall|i: int| 0 <= i < b.len() implies tok_eq(#[trigger] b[i], a[i]) by {
        assert(!contains_match(a[i], ph_text, ph_escaped));
        lemma_rewrite_without_match_is_identity(a[i], b[i], ph_text, ph_escaped, rep_text, rep_pos);
    }
}

/// After substitution no occurrence of the placeholder remains, as long as
/// the built identifier is not itself the placeholder.
pub proof fn lemma_rewrite_removes_matches(
    a: Token,
    b: Token,
    ph_text: Seq<u8>,
    ph_escaped: bool,
    rep_text: Seq<u8>,
    rep_pos: u32,
)
    requires
        rewrites_to(a, b, ph_text, ph_escaped, rep_text, rep_pos),
        !(rep_text == ph_text && !ph_escaped),
    ensures
        !contains_match(b, ph_text, ph_escaped),
    decreases a,
{
    if is_match(a, ph_text, ph_escaped) {
    } else {
        match a {
            Token::Group { tokens, .. } => {
                let t2 = b->tokens;
                assert forall|i: int| 0 <= i < t2@.len() implies !contains_match(
                    #[trigger] t2@[i],
                    ph_text,
                    ph_escaped,
                ) by {
                    lemma_rewrite_removes_matches(
                        tokens@[i],
                        t2@[i],
                        ph_text,
                        ph_escaped,
                        rep_text,
                        rep_pos,
                    );
                }
            },
            _ => {},
        }
    }
}

/// Deep copy of a token tree.
#[verifier::loop_isolation(false)]
fn clone_token(t: &Token) -> (r: Token)
    ensures
        tok_eq(r, *t),
    decreases *t,
{
    match t {
        Token::Ident { text, escaped, pos } => Token::Ident {
            text: text.clone(),
            escaped: *escaped,
            pos: *pos,
        },
        Token::Keyword { text, pos } => Token::Keyword { text: text.clone(), pos: *pos },
        Token::Underscore { pos } => Token::Underscore { pos: *pos },
        Token::BoolLit { value, pos } => Token::BoolLit { value: *value, pos: *pos },
        Token::IntLit { digits, pos } => Token::IntLit { digits: digits.clone(), pos: *pos },
        Token::StrLit { text, pos } => Token::StrLit { text: text.clone(), pos: *pos },
        Token::CharLit { value, pos } => Token::CharLit { value: *value, pos: *pos },
        Token::ByteStrLit { pos } => Token::ByteStrLit { pos: *pos },
        Token::ByteLit { pos } => Token::ByteLit { pos: *pos },
        Token::FloatLit { pos } => Token::FloatLit { pos: *pos },
        Token::OtherLit { pos } => Token::OtherLit { pos: *pos },
        Token::Punct { ch, joint, pos } => Token::Punct { ch: *ch, joint: *joint, pos: *pos },
        Token::Group { delim, tokens, pos } => {
            let mut out: Vec<Token> = Vec::new();
            let mut i: usize = 0;
            while i < tokens.len()
                invariant
                    i <= tokens@.len(),
                    out@.len() == i,
                    forall|j: int| 0 <= j < i ==> tok_eq(#[trigger] out@[j], tokens@[j]),
                decreases tokens@.len() - i,
            {
                proof {
                    let v = t->Group_tokens;
                    assert(decreases_to!(*t => t->Group_tokens));
                    assert(decreases_to!(v => v[i as int]));
                    assert(decreases_to!(*t => tokens@[i as int]));
                }
                let c = clone_token(&tokens[i]);
                out.push(c);
                i += 1;
            }
            Token::Group { delim: *delim, tokens: out, pos: *pos }
        },
    }
}

/// Rewrites one token: replaces it if it matches the placeholder, recurses
/// into a group, and deep-copies anything else unchanged.
#[verifier::loop_isolation(false)]
pub fn rewrite_token(t: &Token, ph_text: &Vec<u8>, ph_escaped: bool, rep_text: &Vec<u8>, rep_pos: u32) -> (r:
    Token)
    ensures
        rewrites_to(*t, r, ph_text@, ph_escaped, rep_text@, rep_pos),
    decreases *t,
{
    match t {
        Token::Ident { text, escaped, pos } => {
            if *escaped == ph_escaped && crate::token::bytes_eq(text, ph_text) {
                Token::Ident { text: rep_text.clone(), escaped: false, pos: rep_pos }
            } else {
                Token::Ident { text: text.clone(), escaped: *escaped, pos: *pos }
            }
        },
        Token::Group { delim, tokens, pos } => {
            let mut out: Vec<Token> = Vec::new();
            let mut i: usize = 0;
            while i < tokens.len()
                invariant
                    i <= tokens@.len(),
                    out@.len() == i,
                    forall|j: int|
                        0 <= j < i ==> rewrites_to(
                            #[trigger] tokens@[j],
                            out@[j],
                            ph_text@,
                            ph_escaped,
                            rep_text@,
                            rep_pos,
                        ),
                decreases tokens@.len() - i,
            {
                proof {
                    let v = t->Group_tokens;
                    assert(decreases_to!(*t => t->Group_tokens));
                    assert(decreases_to!(v => v[i as int]));
                    assert(decreases_to!(*t => tokens@[i as int]));
                }
                let c = rewrite_token(&tokens[i], ph_text, ph_escaped, rep_text, rep_pos);
                out.push(c);
                i += 1;
            }
            Token::Group { delim: *delim, tokens: out, pos: *pos }
        },
        _ => {
            let r = clone_token(t);
            proof {
                lemma_clone_not_match(*t, r, ph_text@, ph_escaped);
            }
            r
        },
    }
}

/// A structurally equal copy of a non-group, non-identifier token satisfies
/// the pass-through case of the substitution relation.
proof fn lemma_clone_not_match(t: Token, r: Token, ph_text: Seq<u8>, ph_escaped: bool)
    requires
        tok_eq(r, t),
        !(t is Ident),
        !(t is Group),
    ensures
        forall|rep_text: Seq<u8>, rep_pos: u32|
            rewrites_to(t, r, ph_text, ph_escaped, rep_text, rep_pos),
{
}

/// Rewrites a whole code block: substitutes the built identifier for every
/// occurrence of the placeholder, at any depth.
pub fn rewrite_tokens(
    ts: &Vec<Token>,
    ph_text: &Vec<u8>,
    ph_escaped: bool,
    rep_text: &Vec<u8>,
    rep_pos: u32,
) -> (r: Vec<Token>)
    ensures
        seq_rewrites_to(ts@, r@, ph_text@, ph_escaped, rep_text@, rep_pos),
{
    let mut out: Vec<Token> = Vec::new();
    let mut i: usize = 0;
    while i < ts.len()
        invariant
            i <= ts@.len(),
            out@.len() == i,
            forall|j: int|
                0 <= j < i ==> rewrites_to(
                    #[trigger] ts@[j],
                    out@[j],
                    ph_text@,
                    ph_escaped,
                    rep_text@,
                    rep_pos,
                ),
        decreases ts@.len() - i,
    {
        let c = rewrite_token(&ts[i], ph_text, ph_escaped, rep_text, rep_pos);
        out.push(c);
        i += 1;
    }
    out
}

} // verus!
