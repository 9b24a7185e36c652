use vstd::prelude::*;

use crate::text::dec_digits;
use crate::token::{dup_token, dup_tokens, extend_tokens, tok_view, toks_view, Lit, LitV, Tok, Token};

verus! {

broadcast use vstd::seq::group_seq_axioms, vstd::std_specs::vec::group_vec_axioms;

/// What removing one level of grouping makes of one token: a group
/// becomes its inner sequence, anything else stays.
pub open spec fn ungroup_one(t: Tok) -> Seq<Tok> {
    match t {
        Tok::Group(_, inner) => inner,
        _ => seq![t],
    }
}

/// Removing exactly one level of grouping from the top-level sequence.
pub open spec fn ungroup_seq(s: Seq<Tok>) -> Seq<Tok>
    decreases s.len(),
{
    if s.len() == 0 {
        Seq::empty()
    } else {
        ungroup_one(s[0]) + ungroup_seq(s.drop_first())
    }
}

/// Splitting the last token off an ungrouped sequence.
pub proof fn lemma_ungroup_snoc(s: Seq<Tok>)
    requires
        s.len() > 0,
    ensures
        ungroup_seq(s) == ungroup_seq(s.drop_last()) + ungroup_one(s.last()),
    decreases s.len(),
{
    if s.len() == 1 {
        assert(ungroup_seq(s.drop_first()) == Seq::<Tok>::empty());
        assert(ungroup_seq(s.drop_last()) == Seq::<Tok>::empty());
        assert(ungroup_seq(s) =~= ungroup_seq(s.drop_last()) + ungroup_one(s.last()));
    } else {
        lemma_ungroup_snoc(s.drop_first());
        assert(s.drop_first().drop_last() =~= s.drop_last().drop_first());
        assert(s.drop_first().last() == s.last());
        assert(s.drop_last().len() > 0);
        assert(s.drop_last()[0] == s[0]);
        assert(ungroup_seq(s.drop_last()) == ungroup_one(s[0]) + ungroup_seq(
            s.drop_last().drop_first(),
        ));
        assert(ungroup_seq(s) =~= ungroup_seq(s.drop_last()) + ungroup_one(s.last()));
    }
}

/// What flattening makes of one token: a group dissolves into its
/// flattened contents, anything else stays.
pub open spec fn flat_one(t: Tok) -> Seq<Tok>
    decreases t, 1int,
    via flat_one_dec
{
    match t {
        Tok::Group(_, inner) => flat_seq(inner),
        _ => seq![t],
    }
}

/// Removing every level of grouping: the result holds no groups at all.
pub open spec fn flat_seq(s: Seq<Tok>) -> Seq<Tok>
    decreases s, 0int,
{
    if s.len() == 0 {
        Seq::empty()
    } else {
        flat_one(s[0]) + flat_seq(s.drop_first())
    }
}

#[via_fn]
proof fn flat_one_dec(t: Tok) {
    if let Tok::Group(d, inner) = t {
        assert(decreases_to!(t => inner));
    }
}

/// Splitting the last token off a flattened sequence.
pub proof fn lemma_flat_snoc(s: Seq<Tok>)
    requires
        s.len() > 0,
    ensures
        flat_seq(s) == flat_seq(s.drop_last()) + flat_one(s.last()),
    decreases s.len(),
{
    if s.len() == 1 {
        assert(flat_seq(s.drop_first()) == Seq::<Tok>::empty());
        assert(flat_seq(s.drop_last()) == Seq::<Tok>::empty());
        assert(flat_seq(s) =~= flat_seq(s.drop_last()) + flat_one(s.last()));
    } else {
        lemma_flat_snoc(s.drop_first());
        assert(s.drop_first().drop_last() =~= s.drop_last().drop_first());
        assert(s.drop_first().last() == s.last());
        assert(s.drop_last().len() > 0);
        assert(s.drop_last()[0] == s[0]);
        assert(flat_seq(s.drop_last()) == flat_one(s[0]) + flat_seq(s.drop_last().drop_first()));
        assert(flat_seq(s) =~= flat_seq(s.drop_last()) + flat_one(s.last()));
    }
}

/// Whether a sequence holds no group at its top level.
pub open spec fn no_groups(s: Seq<Tok>) -> bool {
    forall|i: int| 0 <= i < s.len() ==> !(s[i] is Group)
}

/// A de-grouping transformation: each top-level group is replaced by its
/// inner token sequence, spliced in place; one level only.
pub struct TransformUngroup;

impl TransformUngroup {
    /// The transform takes no arguments; whatever was written is ignored.
    pub fn new(args: &Vec<Token>) {
        let _ = args;
    }

    /// Removes exactly one level of grouping from the top level.
    pub fn apply(input: &Vec<Token>) -> (r: Vec<Token>)
        ensures
            toks_view(r@) == ungroup_seq(toks_view(input@)),
    {
        let ghost model = toks_view(input@);
        let mut out: Vec<Token> = Vec::new();
        let mut i: usize = 0;
        while i < input.len()
            invariant
                i <= input.len(),
                model == toks_view(input@),
                toks_view(out@) == ungroup_seq(model.take(i as int)),
            decreases input.len() - i,
        {
            match &input[i] {
                Token::Group(_, inner) => extend_tokens(&mut out, inner),
                t => {
                    let d = dup_token(t);
                    out.push(d);
                },
            }
            proof {
                lemma_ungroup_snoc(model.take(i + 1 as int));
                assert(model.take(i + 1 as int).drop_last() =~= model.take(i as int));
                assert(model.take(i + 1 as int).last() == tok_view(input@[i as int]));
                assert(toks_view(out@) =~= ungroup_seq(model.take(i + 1 as int)));
            }
            i = i + 1;
        }
        proof {
            assert(model.take(input@.len() as int) =~= model);
        }
        out
    }
}

/// A flattening transformation: every group at every depth dissolves
/// into its contents; the result holds no groups at all.
pub struct TransformFlatten;

impl TransformFlatten {
    /// The transform takes no arguments; whatever was written is ignored.
    pub fn new(args: &Vec<Token>) {
        let _ = args;
    }

    /// Removes every level of grouping.
    pub fn apply(input: &Vec<Token>) -> (r: Vec<Token>)
        ensures
            toks_view(r@) == flat_seq(toks_view(input@)),
    {
        let ghost model = toks_view(input@);
        let mut out: Vec<Token> = Vec::new();
        let mut i: usize = 0;
        while i < input.len()
            invariant
                i <= input.len(),
                model == toks_view(input@),
                toks_view(out@) == flat_seq(model.take(i as int)),
            decreases input.len() - i,
        {
            flatten_tok(&mut out, &input[i]);
            proof {
                lemma_flat_snoc(model.take(i + 1 as int));
                assert(model.take(i + 1 as int).drop_last() =~= model.take(i as int));
                assert(model.take(i + 1 as int).last() == tok_view(input@[i as int]));
            }
            i = i + 1;
        }
        proof {
            assert(model.take(input@.len() as int) =~= model);
        }
        out
    }
}

/// Appends the flattening of one token to `out`.
fn flatten_tok(out: &mut Vec<Token>, t: &Token)
    ensures
        toks_view(final(out)@) == toks_view(old(out)@) + flat_one(tok_view(*t)),
    decreases *t,
{
    match t {
        Token::Group(_, ts) => {
            proof {
                assert(decreases_to!(*t => *ts));
                assert(decreases_to!(*ts => ts@));
            }
            let ghost model = toks_view(ts@);
            let mut i: usize = 0;
            while i < ts.len()
                invariant
                    i <= ts.len(),
                    decreases_to!(*t => ts@),
                    model == toks_view(ts@),
                    toks_view(out@) == toks_view(old(out)@) + flat_seq(model.take(i as int)),
                decreases ts.len() - i,
            {
                proof {
                    assert(decreases_to!(ts@ => ts@[i as int]));
                }
                flatten_tok(out, &ts[i]);
                proof {
                    lemma_flat_snoc(model.take(i + 1 as int));
                    assert(model.take(i + 1 as int).drop_last() =~= model.take(i as int));
                    assert(model.take(i + 1 as int).last() == tok_view(ts@[i as int]));
                }
                i = i + 1;
            }
            proof {
                assert(model.take(ts@.len() as int) =~= model);
            }
        },
        other => {
            let d = dup_token(other);
            out.push(d);
            assert(toks_view(out@) =~= toks_view(old(out)@) + flat_one(tok_view(*t)));
        },
    }
}

/// A reversing transformation: the order of the top-level tokens is
/// reversed; the contents of every group stay internally ordered.
pub struct TransformReverse;

impl TransformReverse {
    /// The transform takes no arguments; whatever was written is ignored.
    pub fn new(args: &Vec<Token>) {
        let _ = args;
    }

    /// Reverses the order of the top-level tokens.
    pub fn apply(input: &Vec<Token>) -> (r: Vec<Token>)
        ensures
            toks_view(r@) == toks_view(input@).reverse(),
    {
        let mut out: Vec<Token> = Vec::new();
        let mut i: usize = input.len();
        while i > 0
            invariant
                i <= input.len(),
                out@.len() == input@.len() - i,
                forall|j: int|
                    0 <= j < out@.len() ==> tok_view(out@[j]) == tok_view(
                        input@[input@.len() - 1 - j],
                    ),
            decreases i,
        {
            i = i - 1;
            let d = dup_token(&input[i]);
            out.push(d);
        }
        proof {
            assert(toks_view(out@) =~= toks_view(input@).reverse());
        }
        out
    }
}

/// A counting transformation: the output is one integer literal holding
/// the number of top-level tokens of the input.
pub struct TransformCount;

impl TransformCount {
    /// The transform takes no arguments; whatever was written is ignored.
    pub fn new(args: &Vec<Token>) {
        let _ = args;
    }

    /// Emits the number of top-level tokens as a decimal integer literal.
    pub fn apply(input: &Vec<Token>) -> (r: Vec<Token>)
        ensures
            toks_view(r@) == seq![Tok::Lit(LitV::Int(dec_digits(toks_view(input@).len())))],
    {
        let digits = crate::text::dec_chars(input.len());
        let mut out: Vec<Token> = Vec::new();
        out.push(Token::Lit(Lit::Int(digits)));
        proof {
            assert(toks_view(out@) =~= seq![
                Tok::Lit(LitV::Int(dec_digits(toks_view(input@).len()))),
            ]);
        }
        out
    }
}

/// An appending transformation: the argument sequence is emitted after
/// the input sequence, both unchanged.
pub struct TransformAppend;

impl TransformAppend {
    /// The argument sequence is taken as it stands.
    pub fn new(args: &Vec<Token>) -> (r: Vec<Token>)
        ensures
            toks_view(r@) == toks_view(args@),
    {
        dup_tokens(args)
    }

    /// Emits the input followed by the arguments.
    pub fn apply(input: &Vec<Token>, args: &Vec<Token>) -> (r: Vec<Token>)
        ensures
            toks_view(r@) == toks_view(input@) + toks_view(args@),
    {
        let mut out = dup_tokens(input);
        extend_tokens(&mut out, args);
        out
    }
}

/// A prefixing transformation: the argument sequence is emitted before
/// the input sequence, both unchanged.
pub struct TransformPrefix;

impl TransformPrefix {
    /// The argument sequence is taken as it stands.
    pub fn new(args: &Vec<Token>) -> (r: Vec<Token>)
        ensures
            toks_view(r@) == toks_view(args@),
    {
        dup_tokens(args)
    }

    /// Emits the arguments followed by the input.
    pub fn apply(input: &Vec<Token>, args: &Vec<Token>) -> (r: Vec<Token>)
        ensures
            toks_view(r@) == toks_view(args@) + toks_view(input@),
    {
        let mut out = dup_tokens(args);
        extend_tokens(&mut out, input);
        out
    }
}

} // verus!
