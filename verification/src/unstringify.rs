use vstd::prelude::*;

use crate::lexer::{lex, lex_spec};
use crate::token::{dup_token, extend_tokens, tok_view, toks_view, Lit, LitV, Tok, Token};

verus! {

broadcast use vstd::seq::group_seq_axioms, vstd::std_specs::vec::group_vec_axioms, crate::token::group_token_views;

/// What unstringification makes of one token: a string literal's value
/// is read back as a token sequence and spliced in place (a value that
/// cannot be read splices nothing); every other token passes through.
pub open spec fn unstr_one(t: Tok) -> Seq<Tok> {
    match t {
        Tok::Lit(LitV::Str(v)) => match lex_spec(v) {
            Some(ts) => ts,
            None => Seq::empty(),
        },
        Tok::Lit(LitV::RawStr(v, _)) => match lex_spec(v) {
            Some(ts) => ts,
            None => Seq::empty(),
        },
        _ => seq![t],
    }
}

/// Unstringification over the top-level sequence; not recursive.
pub open spec fn unstr_seq(s: Seq<Tok>) -> Seq<Tok>
    decreases s.len(),
{
    if s.len() == 0 {
        Seq::empty()
    } else {
        unstr_one(s[0]) + unstr_seq(s.drop_first())
    }
}

/// Splitting the last token off an unstringified sequence.
pub proof fn lemma_unstr_snoc(s: Seq<Tok>)
    requires
        s.len() > 0,
    ensures
        unstr_seq(s) == unstr_seq(s.drop_last()) + unstr_one(s.last()),
    decreases s.len(),
{
    if s.len() == 1 {
        assert(unstr_seq(s.drop_first()) == Seq::<Tok>::empty());
        assert(unstr_seq(s.drop_last()) == Seq::<Tok>::empty());
        assert(unstr_seq(s) =~= unstr_seq(s.drop_last()) + unstr_one(s.last()));
    } else {
        lemma_unstr_snoc(s.drop_first());
        assert(s.drop_first().drop_last() =~= s.drop_last().drop_first());
        assert(s.drop_first().last() == s.last());
        assert(s.drop_last().len() > 0);
        assert(s.drop_last()[0] == s[0]);
        assert(unstr_seq(s.drop_last()) == unstr_one(s[0]) + unstr_seq(s.drop_last().drop_first()));
        assert(unstr_seq(s) =~= unstr_seq(s.drop_last()) + unstr_one(s.last()));
    }
}

/// A transformation that re-parses string literals: each top-level
/// string literal's textual value is read back as tokens and spliced
/// in place. Not necessarily the inverse of stringification.
pub struct TransformUnstringify;

impl TransformUnstringify {
    /// The transform takes no arguments; whatever was written is ignored.
    pub fn new(args: &Vec<Token>) {
        let _ = args;
    }

    /// Splices each string literal's re-read value in place.
    pub fn apply(input: &Vec<Token>) -> (r: Vec<Token>)
        ensures
            toks_view(r@) == unstr_seq(toks_view(input@)),
    {
        let ghost model = toks_view(input@);
        let mut out: Vec<Token> = Vec::new();
        let mut i: usize = 0;
        while i < input.len()
            invariant
                i <= input.len(),
                model == toks_view(input@),
                toks_view(out@) == unstr_seq(model.take(i as int)),
            decreases input.len() - i,
        {
            match &input[i] {
                Token::Lit(l) => match l {
                    Lit::Str(v) => match lex(v) {
                        Some(ts) => extend_tokens(&mut out, &ts),
                        None => {},
                    },
                    Lit::RawStr(v, _) => match lex(v) {
                        Some(ts) => extend_tokens(&mut out, &ts),
                        None => {},
                    },
                    other => {
                        let d = Token::Lit(crate::token::dup_lit(other));
                        out.push(d);
                    },
                },
                t => {
                    let d = dup_token(t);
                    out.push(d);
                },
            }
            proof {
                lemma_unstr_snoc(model.take(i + 1 as int));
                assert(model.take(i + 1 as int).drop_last() =~= model.take(i as int));
                assert(model.take(i + 1 as int).last() == tok_view(input@[i as int]));
                assert(toks_view(out@) =~= unstr_seq(model.take(i + 1 as int)));
            }
            i = i + 1;
        }
        proof {
            assert(model.take(input@.len() as int) =~= model);
        }
        out
    }
}

} // verus!
