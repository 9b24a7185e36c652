use vstd::prelude::*;

use crate::error::{result_view, EmbedError, ErrV};
use crate::text::{fence_len, fence_of, render_tokens, toks_text};
use crate::token::{toks_view, Lit, LitV, Tok, Token};

verus! {

broadcast use vstd::seq::group_seq_axioms, vstd::std_specs::vec::group_vec_axioms, crate::token::group_token_views;

/// What stringification yields: one raw string literal holding the
/// canonical spelling of the whole input, fenced by the smallest
/// length that does not occur as a run of fence marks inside it. The
/// spelling must leave room for one more fence mark than the machine
/// can address, which every realizable input does.
pub open spec fn stringify_spec(s: Seq<Tok>) -> Result<Seq<Tok>, ErrV> {
    let text = toks_text(s);
    if text.len() < usize::MAX {
        Ok(seq![Tok::Lit(LitV::RawStr(text, fence_of(text) as usize))])
    } else {
        Err(ErrV::Capacity)
    }
}

/// A transformation that renders the whole input to text and re-emits
/// it as a single raw string literal.
pub struct TransformStringify;

/// The selected mode for stringification. Only the basic mode exists.
#[derive(Debug, Default)]
pub enum Mode {
    #[default]
    Unspecified,
}

impl TransformStringify {
    /// The transform takes no arguments; whatever was written is ignored.
    pub fn new(args: &Vec<Token>) -> Mode {
        let _ = args;
        Mode::Unspecified
    }

    /// Renders the input and emits it as one raw string literal.
    pub fn apply(input: &Vec<Token>) -> (r: Result<Vec<Token>, EmbedError>)
        ensures
            result_view(r) == stringify_spec(toks_view(input@)),
    {
        let text = render_tokens(input);
        if text.len() == usize::MAX {
            return Err(EmbedError::Capacity);
        }
        let f = fence_len(&text);
        let ghost tv = text@;
        let mut out: Vec<Token> = Vec::new();
        out.push(Token::Lit(Lit::RawStr(text, f)));
        proof {
            assert(f as usize == fence_of(tv) as usize);
            assert(toks_view(out@) =~= seq![Tok::Lit(LitV::RawStr(tv, fence_of(tv) as usize))]);
        }
        Ok(out)
    }
}

} // verus!
