//! Compile-time identifier concatenation, verified.
//!
//! An invocation `NAME = FRAGMENT, ... { STATEMENTS }` is parsed once into a
//! placeholder identifier, a fragment sequence, and a code block; the
//! fragment sequence is reduced to one synthesized identifier; and every
//! occurrence of the placeholder in the block, at any depth, is replaced by
//! it. The library works on its own model of the host language's token trees;
//! the caller lexes the invocation into that model and emits the rewritten
//! block back out.

use vstd::prelude::*;

pub mod builder;
pub mod error;
pub mod fragment;
pub mod parser;
pub mod rewriter;
pub mod token;

use crate::error::Error;
use crate::parser::{invocation_spec, parse_invocation, InvocationView};
use crate::rewriter::{rewrite_tokens, seq_rewrites_to};
use crate::token::Token;

verus! {

/// Runs one whole invocation: parses the input, builds the identifier, and
/// returns the code block's tokens with every occurrence of the placeholder
/// replaced by the synthesized identifier. Any parse or legality failure
/// aborts the invocation with its exact diagnostic, and nothing is produced.
pub fn expand(input: Vec<Token>) -> (r: Result<Vec<Token>, Error>)
    ensures
        match r {
            Ok(out) => {
                &&& invocation_spec(input@) matches Ok(iv)
                &&& seq_rewrites_to(
                    iv.block,
                    out@,
                    iv.placeholder_text,
                    iv.placeholder_escaped,
                    iv.ident_text,
                    iv.ident_pos,
                )
            },
            Err(e) => invocation_spec(input@) == Err::<InvocationView, Error>(e),
        },
{
    let inv = match parse_invocation(input) {
        Err(e) => {
            return Err(e);
        },
        Ok(inv) => inv,
    };
    let out = rewrite_tokens(
        &inv.block_tokens,
        &inv.placeholder_text,
        inv.placeholder_escaped,
        &inv.ident.text,
        inv.ident.pos,
    );
    Ok(out)
}

} // verus!
