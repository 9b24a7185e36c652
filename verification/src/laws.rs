use vstd::prelude::*;

use crate::embed::{
    embed_expand, expand_all, is_marked_region, parse_sequence, parse_sequences, pre_one, pre_seq,
    SeqnV,
};
use crate::error::ErrV;
use crate::kinds::{flat_one, flat_seq, no_groups, ungroup_one, ungroup_seq};
use crate::token::{seq_height, Tok};

verus! {

broadcast use vstd::seq::group_seq_axioms, vstd::std_specs::vec::group_vec_axioms, crate::token::group_token_views;

/// Whether one token holds no marked region at any depth.
pub open spec fn region_free_tok(t: Tok) -> bool
    decreases t, 1int,
    via region_free_tok_dec
{
    !is_marked_region(t) && (match t {
        Tok::Group(_, inner) => region_free(inner),
        _ => true,
    })
}

/// Whether a token sequence holds no marked region at any depth.
pub open spec fn region_free(s: Seq<Tok>) -> bool
    decreases s, 0int,
{
    if s.len() == 0 {
        true
    } else {
        region_free_tok(s[0]) && region_free(s.drop_first())
    }
}

#[via_fn]
proof fn region_free_tok_dec(t: Tok) {
    if let Tok::Group(d, inner) = t {
        assert(decreases_to!(t => inner));
    }
}

/// Every token of a region-free sequence is region-free.
pub proof fn lemma_region_free_index(s: Seq<Tok>, i: int)
    requires
        region_free(s),
        0 <= i < s.len(),
    ensures
        region_free_tok(s[i]),
    decreases s.len(),
{
    if i > 0 {
        lemma_region_free_index(s.drop_first(), i - 1);
    }
}

/// The pass-through parse of a sequence with no marked region at its
/// top level.
pub open spec fn pass_seq(s: Seq<Tok>) -> Seq<SeqnV> {
    Seq::new(s.len(), |k: int| SeqnV::Pass(s[k]))
}

/// Parsing a region-free stream recognizes nothing: every token
/// becomes a pass-through sequence.
pub proof fn lemma_parse_region_free(s: Seq<Tok>, i: int)
    requires
        region_free(s),
        0 <= i <= s.len(),
    ensures
        parse_sequences(s, i) == Ok::<Seq<SeqnV>, ErrV>(pass_seq(s.skip(i))),
    decreases s.len() - i,
{
    if i >= s.len() {
        assert(pass_seq(s.skip(i)) =~= Seq::<SeqnV>::empty());
    } else {
        lemma_region_free_index(s, i);
        assert(!is_marked_region(s[i]));
        assert(parse_sequence(s, i) == Ok::<(SeqnV, int), ErrV>((SeqnV::Pass(s[i]), i + 1)));
        lemma_parse_region_free(s, i + 1);
        assert(seq![SeqnV::Pass(s[i])] + pass_seq(s.skip(i + 1)) =~= pass_seq(s.skip(i)));
    }
}

/// Expanding a pass-through embed returns its tokens unchanged.
pub proof fn lemma_expand_pass(s: Seq<Tok>)
    ensures
        embed_expand(pass_seq(s)) == Ok::<Seq<Tok>, ErrV>(s),
    decreases s.len(),
{
    crate::embed::lemma_embed_expand_unfold(pass_seq(s));
    if s.len() == 0 {
        assert(pass_seq(s) =~= Seq::<SeqnV>::empty());
        assert(s =~= Seq::<Tok>::empty());
        assert(embed_expand(pass_seq(s)) == embed_expand(Seq::<SeqnV>::empty()));
    } else {
        lemma_expand_pass(s.drop_first());
        assert(pass_seq(s).len() == s.len());
        assert(pass_seq(s)[0] == SeqnV::Pass(s[0]));
        assert(crate::embed::seqn_expand(SeqnV::Pass(s[0])) == Ok::<Seq<Tok>, ErrV>(
            seq![s[0]],
        ));
        assert(pass_seq(s).drop_first() =~= pass_seq(s.drop_first()));
        assert(embed_expand(pass_seq(s).drop_first()) == Ok::<Seq<Tok>, ErrV>(s.drop_first()));
        assert(seq![s[0]] + s.drop_first() =~= s);
    }
}

/// Pre-expanding a region-free sequence changes nothing.
pub proof fn lemma_pre_region_free(s: Seq<Tok>)
    requires
        region_free(s),
    ensures
        pre_seq(s) == Ok::<Seq<Tok>, ErrV>(s),
    decreases seq_height(s), s.len(), 1int,
{
    if s.len() == 0 {
        assert(pre_seq(s) == Ok::<Seq<Tok>, ErrV>(Seq::<Tok>::empty()));
        assert(s =~= Seq::<Tok>::empty());
    } else {
        match s[0] {
            Tok::Group(d, inner) => {
                crate::token::lemma_seq_height_bound(s, 0);
                assert(region_free_tok(s[0]));
                assert(region_free(inner));
                lemma_expand_identity(inner);
                assert(pre_one(s[0]) == Ok::<Seq<Tok>, ErrV>(seq![Tok::Group(d, inner)]));
            },
            _ => {
                assert(pre_one(s[0]) == Ok::<Seq<Tok>, ErrV>(seq![s[0]]));
            },
        }
        lemma_pre_region_free(s.drop_first());
        assert(seq![s[0]] + s.drop_first() =~= s);
    }
}

/// Expansion is the identity on any input holding no marked region:
/// for all token sequences without marked regions, the whole recursive
/// expansion succeeds and returns the input unchanged.
pub proof fn lemma_expand_identity(s: Seq<Tok>)
    requires
        region_free(s),
    ensures
        expand_all(s) == Ok::<Seq<Tok>, ErrV>(s),
    decreases seq_height(s), s.len(), 2int,
{
    lemma_pre_region_free(s);
    lemma_parse_region_free(s, 0);
    assert(s.skip(0) =~= s);
    lemma_expand_pass(s);
}

/// Ungrouping leaves a token that is not a group alone.
pub proof fn lemma_ungroup_identity(s: Seq<Tok>)
    requires
        no_groups(s),
    ensures
        ungroup_seq(s) == s,
    decreases s.len(),
{
    if s.len() == 0 {
        assert(ungroup_seq(s) =~= s);
    } else {
        assert(!(s[0] is Group));
        assert(ungroup_one(s[0]) == seq![s[0]]);
        assert(no_groups(s.drop_first()));
        lemma_ungroup_identity(s.drop_first());
        assert(ungroup_seq(s) =~= s);
    }
}

/// Flattening leaves no group at any level.
pub proof fn lemma_flatten_no_groups(s: Seq<Tok>)
    ensures
        no_groups(flat_seq(s)),
    decreases s, 0int,
{
    if s.len() > 0 {
        lemma_flat_one_no_groups(s[0]);
        lemma_flatten_no_groups(s.drop_first());
        assert forall|i: int| 0 <= i < flat_seq(s).len() implies !(flat_seq(s)[i] is Group) by {
            assert(flat_seq(s) == flat_one(s[0]) + flat_seq(s.drop_first()));
        };
    }
}

/// Flattening one token leaves no group at any level.
proof fn lemma_flat_one_no_groups(t: Tok)
    ensures
        no_groups(flat_one(t)),
    decreases t, 1int,
{
    match t {
        Tok::Group(_, inner) => {
            lemma_flatten_no_groups(inner);
        },
        _ => {},
    }
}

/// Flattening a sequence that already holds no group changes nothing.
pub proof fn lemma_flatten_fixed(s: Seq<Tok>)
    requires
        no_groups(s),
    ensures
        flat_seq(s) == s,
    decreases s.len(),
{
    if s.len() == 0 {
        assert(flat_seq(s) =~= s);
    } else {
        assert(!(s[0] is Group));
        assert(flat_one(s[0]) == seq![s[0]]);
        assert(no_groups(s.drop_first()));
        lemma_flatten_fixed(s.drop_first());
        assert(flat_seq(s) =~= s);
    }
}

/// Flattening is idempotent: flattening a second time changes nothing.
pub proof fn lemma_flatten_idempotent(s: Seq<Tok>)
    ensures
        flat_seq(flat_seq(s)) == flat_seq(s),
{
    lemma_flatten_no_groups(s);
    lemma_flatten_fixed(flat_seq(s));
}

/// Reversal is an involution on the top-level sequence.
pub proof fn lemma_reverse_involution(s: Seq<Tok>)
    ensures
        s.reverse().reverse() == s,
{
    assert(s.reverse().reverse() =~= s);
}

} // verus!
