//! The identifier builder: from a fragment sequence to one identifier.
//!
//! Sequence-level legality is checked against the first fragment and the
//! overall length; the identifier text is the ordered concatenation of each
//! fragment's contribution, anchored at the first fragment's position.

use vstd::prelude::*;

use crate::error::Error;
use crate::fragment::{contribution, frag_pos, frag_wf, FragView, Fragment};

verus! {

/// The identifier synthesized from a fragment sequence, with the position of
/// the first fragment as its diagnostics anchor.
#[derive(Debug, PartialEq)]
pub struct BuiltIdent {
    pub text: Vec<u8>,
    pub pos: u32,
}

/// The mathematical model of a built identifier.
#[verifier::ext_equal]
pub struct BuiltIdentView {
    pub text: Seq<u8>,
    pub pos: u32,
}

impl View for BuiltIdent {
    type V = BuiltIdentView;

    open spec fn view(&self) -> BuiltIdentView {
        BuiltIdentView { text: self.text@, pos: self.pos }
    }
}

/// The models of a sequence of fragments.
pub open spec fn views(s: Seq<Fragment>) -> Seq<FragView> {
    s.map_values(|f: Fragment| f@)
}

/// The ordered concatenation of the fragments' textual contributions.
pub open spec fn frags_text(s: Seq<FragView>) -> Seq<u8>
    decreases s.len(),
{
    if s.len() == 0 {
        Seq::empty()
    } else {
        contribution(s[0]) + frags_text(s.drop_first())
    }
}

/// The sequence-level legality check: the diagnostic a fragment sequence is
/// rejected with, if any. `fallback_pos` anchors the empty-sequence case.
pub open spec fn sequence_error(s: Seq<FragView>, fallback_pos: u32) -> Option<Error> {
    if s.len() == 0 {
        Some(Error::EmptyIdentifier { pos: fallback_pos })
    } else if s[0] is Boolean && s.len() == 1 {
        Some(Error::IdentifierIsSingleBoolean { pos: frag_pos(s[0]) })
    } else if s[0] is Integer && s.len() == 1 {
        Some(Error::IdentifierIsOnlyInteger { pos: frag_pos(s[0]) })
    } else if s[0] is Integer {
        Some(Error::IdentifierStartsWithInteger { pos: frag_pos(s[0]) })
    } else {
        None
    }
}

/// Concatenation law: the text built from two fragment sequences in order is
/// the text of the first followed by the text of the second.
pub proof fn lemma_concatenation_associative(a: Seq<FragView>, b: Seq<FragView>)
    ensures
        frags_text(a + b) == frags_text(a) + frags_text(b),
    decreases a.len(),
{
    if a.len() == 0 {
        assert(a + b =~= b);
        assert(frags_text(a) + frags_text(b) =~= frags_text(b));
    } else {
        lemma_concatenation_associative(a.drop_first(), b);
        assert((a + b).drop_first() =~= a.drop_first() + b);
        assert(contribution(a[0]) + (frags_text(a.drop_first()) + frags_text(b)) =~= (contribution(
            a[0],
        ) + frags_text(a.drop_first())) + frags_text(b));
    }
}

/// Building from `[a, b, c]` yields the same text as building from `[a, m]`
/// when `m` carries the pre-concatenated text of `b` and `c`.
pub proof fn lemma_merged_fragments_agree(a: FragView, b: FragView, c: FragView, m: FragView)
    requires
        contribution(m) == contribution(b) + contribution(c),
    ensures
        frags_text(seq![a, b, c]) == frags_text(seq![a, m]),
{
    reveal_with_fuel(frags_text, 4);
    assert(seq![a, b, c].drop_first() =~= seq![b, c]);
    assert(seq![b, c].drop_first() =~= seq![c]);
    assert(seq![c].drop_first() =~= Seq::<FragView>::empty());
    assert(seq![a, m].drop_first() =~= seq![m]);
    assert(seq![m].drop_first() =~= Seq::<FragView>::empty());
    assert(frags_text(seq![a, b, c]) =~= frags_text(seq![a, m]));
}

/// The built text is at least as long as any one fragment's contribution.
proof fn lemma_contribution_bounds_text(s: Seq<FragView>, i: int)
    requires
        0 <= i < s.len(),
    ensures
        frags_text(s).len() >= contribution(s[i]).len(),
    decreases s.len(),
{
    if i > 0 {
        lemma_contribution_bounds_text(s.drop_first(), i - 1);
    }
}

/// Nonemptiness law: a well-formed, non-empty fragment sequence with at least
/// one fragment that is not an empty quoted string builds a non-empty text.
pub proof fn lemma_built_text_nonempty(s: Seq<FragView>)
    requires
        s.len() > 0,
        forall|i: int| 0 <= i < s.len() ==> frag_wf(#[trigger] s[i]),
        exists|i: int|
            0 <= i < s.len() && !(#[trigger] s[i] matches FragView::QuotedText { text, .. }
                && text.len() == 0),
    ensures
        frags_text(s).len() > 0,
{
    let i = choose|i: int|
        0 <= i < s.len() && !(#[trigger] s[i] matches FragView::QuotedText { text, .. }
            && text.len() == 0);
    assert(contribution(s[i]).len() > 0);
    lemma_contribution_bounds_text(s, i);
}

/// Appends the bytes of `src` to `out`.
fn push_bytes(out: &mut Vec<u8>, src: &Vec<u8>)
    ensures
        final(out)@ == old(out)@ + src@,
{
    let mut i: usize = 0;
    while i < src.len()
        invariant
            i <= src@.len(),
            out@ == old(out)@ + src@.subrange(0, i as int),
        decreases src@.len() - i,
    {
        out.push(src[i]);
        assert(old(out)@ + src@.subrange(0, i as int) + seq![src@[i as int]] =~= old(out)@
            + src@.subrange(0, i + 1));
        i += 1;
    }
    assert(src@.subrange(0, src@.len() as int) =~= src@);
}

/// Appends one fragment's contribution to `out`.
fn push_contribution(out: &mut Vec<u8>, f: &Fragment)
    ensures
        final(out)@ == old(out)@ + contribution(f@),
{
    match f {
        Fragment::Name { text, .. } => push_bytes(out, text),
        Fragment::Underscore { .. } => {
            out.push(95);
            assert(out@ =~= old(out)@ + contribution(f@));
        },
        Fragment::Integer { digits, .. } => push_bytes(out, digits),
        Fragment::Boolean { value, .. } => {
            if *value {
                out.push(116);
                out.push(114);
                out.push(117);
                out.push(101);
            } else {
                out.push(102);
                out.push(97);
                out.push(108);
                out.push(115);
                out.push(101);
            }
            assert(out@ =~= old(out)@ + contribution(f@));
        },
        Fragment::QuotedText { text, .. } => push_bytes(out, text),
        Fragment::Character { value, .. } => {
            out.push(*value);
            assert(out@ =~= old(out)@ + contribution(f@));
        },
    }
}

/// Returns the position handle of a fragment.
pub fn fragment_pos(f: &Fragment) -> (p: u32)
    ensures
        p == frag_pos(f@),
{
    match f {
        Fragment::Name { pos, .. } => *pos,
        Fragment::Underscore { pos } => *pos,
        Fragment::Integer { pos, .. } => *pos,
        Fragment::Boolean { pos, .. } => *pos,
        Fragment::QuotedText { pos, .. } => *pos,
        Fragment::Character { pos, .. } => *pos,
    }
}

/// Reduces a fragment sequence to one identifier: rejects an illegal sequence
/// with its exact diagnostic, and otherwise concatenates every fragment's
/// contribution, anchored at the first fragment's position.
pub fn build_identifier(frags: &Vec<Fragment>, fallback_pos: u32) -> (r: Result<BuiltIdent, Error>)
    ensures
        match sequence_error(views(frags@), fallback_pos) {
            Some(e) => r == Err::<BuiltIdent, Error>(e),
            None => r matches Ok(b) && b@.text == frags_text(views(frags@)) && b@.pos == frag_pos(
                views(frags@)[0],
            ),
        },
{
    let ghost vs = views(frags@);
    if frags.len() == 0 {
        return Err(Error::EmptyIdentifier { pos: fallback_pos });
    }
    let first_pos = fragment_pos(&frags[0]);
    match &frags[0] {
        Fragment::Boolean { .. } => {
            if frags.len() == 1 {
                return Err(Error::IdentifierIsSingleBoolean { pos: first_pos });
            }
        },
        Fragment::Integer { .. } => {
            if frags.len() == 1 {
                return Err(Error::IdentifierIsOnlyInteger { pos: first_pos });
            } else {
                return Err(Error::IdentifierStartsWithInteger { pos: first_pos });
            }
        },
        _ => {},
    }
    let mut text: Vec<u8> = Vec::new();
    let mut i: usize = 0;
    while i < frags.len()
        invariant
            i <= frags@.len(),
            vs == views(frags@),
            vs.len() == frags@.len(),
            text@ == frags_text(vs.take(i as int)),
        decreases frags@.len() - i,
    {
        push_contribution(&mut text, &frags[i]);
        proof {
            assert(vs.take(i + 1) =~= vs.take(i as int) + seq![vs[i as int]]);
            lemma_concatenation_associative(vs.take(i as int), seq![vs[i as int]]);
            reveal_with_fuel(frags_text, 2);
            assert(seq![vs[i as int]].drop_first() =~= Seq::<FragView>::empty());
            assert(frags_text(seq![vs[i as int]]) =~= contribution(vs[i as int]));
            assert(vs[i as int] == frags@[i as int]@);
        }
        i += 1;
    }
    proof {
        assert(vs.take(vs.len() as int) =~= vs);
    }
    Ok(BuiltIdent { text, pos: first_pos })
}

} // verus!
