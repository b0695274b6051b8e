//! The invocation parser: recursive descent with one-token lookahead over
//! `NAME "=" FRAGMENT ("," FRAGMENT)* ","? "{" STATEMENTS "}"`.
//!
//! The whole input is parsed once into the placeholder identifier, the
//! synthesized identifier, and the code block; any failure aborts the whole
//! invocation with a diagnostic anchored at the offending token.

use vstd::prelude::*;

use crate::builder::{build_identifier, frags_text, sequence_error, views, BuiltIdent};
use crate::error::Error;
use crate::fragment::{frag_outcome, frag_pos, fragment_from_token, FragView, Fragment};
use crate::token::{is_brace_group, is_comma, is_eq_punct, tok_pos, token_pos, Delim, Token};

verus! {

broadcast use vstd::std_specs::vec::group_vec_axioms;

/// A fully parsed invocation: the placeholder, the synthesized identifier,
/// and the code block to substitute into.
#[derive(Debug, PartialEq)]
pub struct Invocation {
    pub placeholder_text: Vec<u8>,
    pub placeholder_escaped: bool,
    pub placeholder_pos: u32,
    pub ident: BuiltIdent,
    pub block_tokens: Vec<Token>,
    pub block_pos: u32,
}

/// The mathematical model of a parsed invocation.
#[verifier::ext_equal]
pub struct InvocationView {
    pub placeholder_text: Seq<u8>,
    pub placeholder_escaped: bool,
    pub placeholder_pos: u32,
    pub ident_text: Seq<u8>,
    pub ident_pos: u32,
    pub block: Seq<Token>,
    pub block_pos: u32,
}

impl View for Invocation {
    type V = InvocationView;

    open spec fn view(&self) -> InvocationView {
        InvocationView {
            placeholder_text: self.placeholder_text@,
            placeholder_escaped: self.placeholder_escaped,
            placeholder_pos: self.placeholder_pos,
            ident_text: self.ident@.text,
            ident_pos: self.ident@.pos,
            block: self.block_tokens@,
            block_pos: self.block_pos,
        }
    }
}

/// What the fragment-list parser must make of the token region between the
/// `=` and the code block: fragments separated by commas, with an optional
/// trailing comma.
pub open spec fn frags_spec(toks: Seq<Token>) -> Result<Seq<FragView>, Error>
    decreases toks.len(),
{
    if toks.len() == 0 {
        Ok(Seq::empty())
    } else {
        match frag_outcome(toks[0]) {
            Err(e) => Err(e),
            Ok(f) => {
                if toks.len() == 1 {
                    Ok(seq![f])
                } else if is_comma(toks[1]) {
                    match frags_spec(toks.subrange(2, toks.len() as int)) {
                        Err(e) => Err(e),
                        Ok(rest) => Ok(seq![f] + rest),
                    }
                } else {
                    Err(Error::MalformedInput { pos: tok_pos(toks[1]) })
                }
            },
        }
    }
}

/// The index of the first brace group at or after `i`, or the length of the
/// sequence if there is none.
pub open spec fn brace_index(toks: Seq<Token>, i: int) -> int
    decreases toks.len() - i,
{
    if i < 0 || i >= toks.len() {
        toks.len() as int
    } else if is_brace_group(toks[i]) {
        i
    } else {
        brace_index(toks, i + 1)
    }
}

/// What the invocation parser must make of the whole input.
pub open spec fn invocation_spec(toks: Seq<Token>) -> Result<InvocationView, Error> {
    if toks.len() == 0 {
        Err(Error::MalformedInput { pos: 0 })
    } else if !(toks[0] is Ident) {
        Err(Error::MalformedInput { pos: tok_pos(toks[0]) })
    } else if toks.len() == 1 {
        Err(Error::MalformedInput { pos: tok_pos(toks[0]) })
    } else if !is_eq_punct(toks[1]) {
        Err(Error::MalformedInput { pos: tok_pos(toks[1]) })
    } else {
        let k = brace_index(toks, 2);
        if k == toks.len() {
            Err(Error::MalformedInput { pos: tok_pos(toks[toks.len() - 1]) })
        } else if k < toks.len() - 1 {
            Err(Error::MalformedInput { pos: tok_pos(toks[k + 1]) })
        } else {
            match frags_spec(toks.subrange(2, k)) {
                Err(e) => Err(e),
                Ok(frs) => match sequence_error(frs, tok_pos(toks[k])) {
                    Some(e) => Err(e),
                    None => Ok(
                        InvocationView {
                            placeholder_text: toks[0]->Ident_text@,
                            placeholder_escaped: toks[0]->Ident_escaped,
                            placeholder_pos: toks[0]->Ident_pos,
                            ident_text: frags_text(frs),
                            ident_pos: frag_pos(frs[0]),
                            block: toks[k]->Group_tokens@,
                            block_pos: tok_pos(toks[k]),
                        },
                    ),
                },
            }
        }
    }
}

/// Whether a token is the comma separating two fragments.
fn is_comma_token(t: &Token) -> (r: bool)
    ensures
        r == is_comma(*t),
{
    match t {
        Token::Punct { ch, .. } => *ch == ',',
        _ => false,
    }
}

/// Whether a token is the lone `=` after the placeholder.
fn is_eq_token(t: &Token) -> (r: bool)
    ensures
        r == is_eq_punct(*t),
{
    match t {
        Token::Punct { ch, joint, .. } => *ch == '=' && !*joint,
        _ => false,
    }
}

/// Whether a token is a brace group.
fn is_brace_group_token(t: &Token) -> (r: bool)
    ensures
        r == is_brace_group(*t),
{
    match t {
        Token::Group { delim, .. } => *delim == Delim::Brace,
        _ => false,
    }
}

/// `brace_index` is pinned down by a scan that found no earlier brace group.
proof fn lemma_brace_index_of(toks: Seq<Token>, i: int, k: int)
    requires
        0 <= i <= k <= toks.len(),
        forall|j: int| i <= j < k ==> !is_brace_group(#[trigger] toks[j]),
        k == toks.len() || is_brace_group(toks[k]),
    ensures
        brace_index(toks, i) == k,
    decreases k - i,
{
    if i < k {
        lemma_brace_index_of(toks, i + 1, k);
    }
}

/// Parses the fragment region `toks[start..end]` left to right, consuming an
/// optional comma after each fragment.
fn parse_fragments(toks: &Vec<Token>, start: usize, end: usize) -> (r: Result<Vec<Fragment>, Error>)
    requires
        start <= end <= toks@.len(),
    ensures
        match r {
            Ok(fs) => frags_spec(toks@.subrange(start as int, end as int)) == Ok::<
                Seq<FragView>,
                Error,
            >(views(fs@)),
            Err(e) => frags_spec(toks@.subrange(start as int, end as int)) == Err::<
                Seq<FragView>,
                Error,
            >(e),
        },
    decreases end - start,
{
    let ghost region = toks@.subrange(start as int, end as int);
    if start == end {
        let fs: Vec<Fragment> = Vec::new();
        proof {
            assert(views(fs@) =~= Seq::<FragView>::empty());
        }
        return Ok(fs);
    }
    assert(region[0] == toks@[start as int]);
    match fragment_from_token(&toks[start]) {
        Err(e) => Err(e),
        Ok(f) => {
            if start + 1 == end {
                let mut fs: Vec<Fragment> = Vec::new();
                fs.push(f);
                proof {
                    assert(views(fs@) =~= seq![f@]);
                }
                Ok(fs)
            } else if is_comma_token(&toks[start + 1]) {
                proof {
                    assert(region[1] == toks@[start + 1]);
                    assert(region.subrange(2, region.len() as int) =~= toks@.subrange(
                        start + 2,
                        end as int,
                    ));
                }
                match parse_fragments(toks, start + 2, end) {
                    Err(e) => Err(e),
                    Ok(rest) => {
                        let ghost tail = rest@;
                        let mut rest = rest;
                        rest.insert(0, f);
                        proof {
                            assert(rest@ == tail.insert(0, f));
                            assert(views(rest@) =~= seq![f@] + views(tail));
                        }
                        Ok(rest)
                    },
                }
            } else {
                proof {
                    assert(region[1] == toks@[start + 1]);
                }
                Err(Error::MalformedInput { pos: token_pos(&toks[start + 1]) })
            }
        },
    }
}

/// Parses the whole invocation input into its placeholder, its synthesized
/// identifier, and its code block, or fails with the exact diagnostic the
/// grammar and the legality rules prescribe.
pub fn parse_invocation(input: Vec<Token>) -> (r: Result<Invocation, Error>)
    ensures
        match r {
            Ok(inv) => invocation_spec(input@) == Ok::<InvocationView, Error>(inv@),
            Err(e) => invocation_spec(input@) == Err::<InvocationView, Error>(e),
        },
{
    let mut toks = input;
    let n = toks.len();
    if n == 0 {
        return Err(Error::MalformedInput { pos: 0 });
    }
    let (ph_text, ph_escaped, ph_pos) = match &toks[0] {
        Token::Ident { text, escaped, pos } => (text.clone(), *escaped, *pos),
        _ => {
            let p = token_pos(&toks[0]);
            return Err(Error::MalformedInput { pos: p });
        },
    };
    if n == 1 {
        return Err(Error::MalformedInput { pos: ph_pos });
    }
    if !is_eq_token(&toks[1]) {
        let p = token_pos(&toks[1]);
        return Err(Error::MalformedInput { pos: p });
    }
    let mut k: usize = 2;
    while k < n && !is_brace_group_token(&toks[k])
        invariant
            2 <= k <= n,
            n == toks@.len(),
            forall|j: int| 2 <= j < k ==> !is_brace_group(#[trigger] toks@[j]),
        decreases n - k,
    {
        k += 1;
    }
    proof {
        lemma_brace_index_of(toks@, 2, k as int);
    }
    if k == n {
        let p = token_pos(&toks[n - 1]);
        return Err(Error::MalformedInput { pos: p });
    }
    if k < n - 1 {
        let p = token_pos(&toks[k + 1]);
        return Err(Error::MalformedInput { pos: p });
    }
    let frags = match parse_fragments(&toks, 2, k) {
        Err(e) => {
            return Err(e);
        },
        Ok(fs) => fs,
    };
    let block_pos = token_pos(&toks[k]);
    let built = match build_identifier(&frags, block_pos) {
        Err(e) => {
            return Err(e);
        },
        Ok(b) => b,
    };
    let blk = toks.pop().unwrap();
    assert(blk == input@[k as int]);
    match blk {
        Token::Group { delim: Delim::Brace, tokens: block_tokens, pos } => {
            Ok(
                Invocation {
                    placeholder_text: ph_text,
                    placeholder_escaped: ph_escaped,
                    placeholder_pos: ph_pos,
                    ident: built,
                    block_tokens,
                    block_pos: pos,
                },
            )
        },
        _ => {
            proof {
                assert(false);
            }
            Err(Error::MalformedInput { pos: 0 })
        },
    }
}

} // verus!
