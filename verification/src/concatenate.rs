use vstd::prelude::*;

use crate::error::{result_view, EmbedError, ErrV};
use crate::kinds::{flat_seq, TransformFlatten};
use crate::text::{bool_text, fence_len, fence_of, push_all, render_token, str_chars, tok_text};
use crate::token::{chars_eq, dup_chars, tok_view, toks_view, Lit, LitV, Tok, Token};

verus! {

broadcast use vstd::seq::group_seq_axioms, vstd::std_specs::vec::group_vec_axioms, crate::token::group_token_views;

/// The selected mode for concatenation.
#[derive(Debug, Clone, Default, Copy, PartialEq, Eq, Structural)]
pub enum Concatenate {
    /// Concatenate everything into a single identifier.
    #[default]
    Ident,
    /// Concatenate everything into a single raw identifier.
    RawIdent,
    /// Concatenate everything into a single string literal.
    String,
}

/// What the concatenation mode parse yields: empty arguments default to
/// the identifier mode; otherwise one identifier naming a mode.
pub open spec fn concat_mode_of(args: Seq<Tok>) -> Result<Concatenate, ErrV> {
    if args.len() == 0 {
        Ok(Concatenate::Ident)
    } else if args.len() != 1 {
        Err(ErrV::ExpectedIdent)
    } else {
        match args[0] {
            Tok::Ident(n) => if n == "ident"@ {
                Ok(Concatenate::Ident)
            } else if n == "r#ident"@ {
                Ok(Concatenate::RawIdent)
            } else if n == "string"@ {
                Ok(Concatenate::String)
            } else {
                Err(ErrV::UnknownMode(n))
            },
            _ => Err(ErrV::ExpectedIdent),
        }
    }
}

/// The textual fragment one flattened token contributes to an
/// identifier concatenation; byte and byte-string literals are refused.
pub open spec fn frag(t: Tok) -> Result<Seq<char>, ErrV> {
    match t {
        Tok::Ident(n) => Ok(n),
        Tok::Punct(c) => Ok(seq![c]),
        Tok::Lit(l) => match l {
            LitV::Str(v) => Ok(v),
            LitV::RawStr(v, _) => Ok(v),
            LitV::Char(c) => Ok(seq![c]),
            LitV::Int(v) => Ok(v),
            LitV::Float(v) => Ok(v),
            LitV::Bool(b) => Ok(bool_text(b)),
            LitV::Verbatim(v) => Ok(v),
            LitV::Byte(_) => Err(ErrV::ByteLiteral),
            LitV::ByteStr(_) => Err(ErrV::ByteLiteral),
        },
        Tok::Group(_, _) => Ok(Seq::empty()),
    }
}

/// The fragments of a whole sequence, aborting at the first refusal.
pub open spec fn frags(s: Seq<Tok>) -> Result<Seq<char>, ErrV>
    decreases s.len(),
{
    if s.len() == 0 {
        Ok(Seq::empty())
    } else {
        match frag(s[0]) {
            Err(e) => Err(e),
            Ok(f) => match frags(s.drop_first()) {
                Err(e) => Err(e),
                Ok(r) => Ok(f + r),
            },
        }
    }
}

/// What identifier-mode concatenation yields: the input is flattened,
/// every token becomes its textual fragment, and the fragments form one
/// identifier (with a raw-identifier marker in the raw mode).
pub open spec fn concat_ident_spec(s: Seq<Tok>, raw: bool) -> Result<Seq<Tok>, ErrV> {
    match frags(flat_seq(s)) {
        Err(e) => Err(e),
        Ok(text) => Ok(
            seq![Tok::Ident(if raw {
                "r#"@ + text
            } else {
                text
            })],
        ),
    }
}

/// The textual fragment one token contributes to string-mode
/// concatenation: a string literal's value, or the token's spelling.
pub open spec fn frag_str(t: Tok) -> Seq<char> {
    match t {
        Tok::Lit(LitV::Str(v)) => v,
        Tok::Lit(LitV::RawStr(v, _)) => v,
        _ => tok_text(t),
    }
}

/// The string-mode fragments of the top-level tokens, in order.
pub open spec fn frags_str(s: Seq<Tok>) -> Seq<char>
    decreases s.len(),
{
    if s.len() == 0 {
        Seq::empty()
    } else {
        frag_str(s[0]) + frags_str(s.drop_first())
    }
}

/// What string-mode concatenation yields: one raw string literal
/// holding the joined fragments of the top-level tokens, fenced like a
/// stringification.
pub open spec fn concat_string_spec(s: Seq<Tok>) -> Result<Seq<Tok>, ErrV> {
    let text = frags_str(s);
    if text.len() < usize::MAX {
        Ok(seq![Tok::Lit(LitV::RawStr(text, fence_of(text) as usize))])
    } else {
        Err(ErrV::Capacity)
    }
}

/// What concatenation yields in each mode.
pub open spec fn concat_spec(s: Seq<Tok>, mode: Concatenate) -> Result<Seq<Tok>, ErrV> {
    match mode {
        Concatenate::Ident => concat_ident_spec(s, false),
        Concatenate::RawIdent => concat_ident_spec(s, true),
        Concatenate::String => concat_string_spec(s),
    }
}

/// A transformation that joins the whole input into a single token.
pub struct TransformConcatenate;

impl TransformConcatenate {
    /// Parses the optional mode argument.
    pub fn new(args: &Vec<Token>) -> (r: Result<Concatenate, EmbedError>)
        ensures
            match r {
                Ok(m) => concat_mode_of(toks_view(args@)) == Ok::<Concatenate, ErrV>(m),
                Err(e) => concat_mode_of(toks_view(args@)) == Err::<Concatenate, ErrV>(
                    e.deep_view(),
                ),
            },
    {
        if args.len() == 0 {
            return Ok(Concatenate::Ident);
        }
        if args.len() != 1 {
            return Err(EmbedError::ExpectedIdent);
        }
        match &args[0] {
            Token::Ident(n) => {
                if chars_eq(n, &str_chars("ident")) {
                    Ok(Concatenate::Ident)
                } else if chars_eq(n, &str_chars("r#ident")) {
                    Ok(Concatenate::RawIdent)
                } else if chars_eq(n, &str_chars("string")) {
                    Ok(Concatenate::String)
                } else {
                    Err(EmbedError::UnknownMode(dup_chars(n)))
                }
            },
            _ => Err(EmbedError::ExpectedIdent),
        }
    }

    /// Joins the input into one identifier or one string literal.
    pub fn apply(input: &Vec<Token>, mode: Concatenate) -> (r: Result<Vec<Token>, EmbedError>)
        ensures
            result_view(r) == concat_spec(toks_view(input@), mode),
    {
        match mode {
            Concatenate::String => Self::apply_string(input),
            Concatenate::Ident => Self::apply_ident(input, false),
            Concatenate::RawIdent => Self::apply_ident(input, true),
        }
    }

    /// Identifier-mode concatenation over the flattened input.
    fn apply_ident(input: &Vec<Token>, raw: bool) -> (r: Result<Vec<Token>, EmbedError>)
        ensures
            result_view(r) == concat_ident_spec(toks_view(input@), raw),
    {
        let flat = TransformFlatten::apply(input);
        let ghost fmodel = toks_view(flat@);
        let mut text: Vec<char> = Vec::new();
        let mut i: usize = 0;
        proof {
            assert(fmodel.skip(0) =~= fmodel);
            match frags(fmodel) {
                Ok(r2) => {
                    assert(Seq::<char>::empty() + r2 =~= r2);
                },
                Err(_) => {},
            }
        }
        while i < flat.len()
            invariant
                i <= flat.len(),
                fmodel == toks_view(flat@),
                fmodel == flat_seq(toks_view(input@)),
                frags(fmodel) == (match frags(fmodel.skip(i as int)) {
                    Err(e) => Err::<Seq<char>, ErrV>(e),
                    Ok(r2) => Ok::<Seq<char>, ErrV>(text@ + r2),
                }),
            decreases flat.len() - i,
        {
            let ghost before = text@;
            match push_frag(&mut text, &flat[i]) {
                Ok(()) => {},
                Err(e) => {
                    proof {
                        assert(fmodel.skip(i as int)[0] == fmodel[i as int]);
                    }
                    return Err(e);
                },
            }
            proof {
                assert(fmodel.skip(i as int)[0] == fmodel[i as int]);
                assert(fmodel.skip(i as int).drop_first() =~= fmodel.skip(i + 1 as int));
                match frags(fmodel.skip(i + 1 as int)) {
                    Ok(r2) => {
                        assert(before + ((text@.skip(before.len() as int)) + r2) =~= text@ + r2);
                    },
                    Err(_) => {},
                }
            }
            i = i + 1;
        }
        proof {
            assert(fmodel.skip(flat@.len() as int) =~= Seq::<Tok>::empty());
            assert(text@ + Seq::<char>::empty() =~= text@);
        }
        let name = if raw {
            let mut n = str_chars("r#");
            push_all(&mut n, &text);
            n
        } else {
            text
        };
        let mut out: Vec<Token> = Vec::new();
        out.push(Token::Ident(name));
        proof {
            match frags(flat_seq(toks_view(input@))) {
                Ok(t2) => {
                    assert(toks_view(out@) =~= seq![Tok::Ident(if raw {
                        "r#"@ + t2
                    } else {
                        t2
                    })]);
                },
                Err(_) => {},
            }
        }
        Ok(out)
    }

    /// String-mode concatenation over the top-level tokens.
    fn apply_string(input: &Vec<Token>) -> (r: Result<Vec<Token>, EmbedError>)
        ensures
            result_view(r) == concat_string_spec(toks_view(input@)),
    {
        let ghost model = toks_view(input@);
        let mut text: Vec<char> = Vec::new();
        let mut i: usize = 0;
        while i < input.len()
            invariant
                i <= input.len(),
                model == toks_view(input@),
                text@ == frags_str(model.take(i as int)),
            decreases input.len() - i,
        {
            match &input[i] {
                Token::Lit(l) => match l {
                    Lit::Str(v) => push_all(&mut text, v),
                    Lit::RawStr(v, _) => push_all(&mut text, v),
                    _ => render_token(&mut text, &input[i]),
                },
                _ => render_token(&mut text, &input[i]),
            }
            proof {
                lemma_frags_str_snoc(model.take(i + 1 as int));
                assert(model.take(i + 1 as int).drop_last() =~= model.take(i as int));
                assert(model.take(i + 1 as int).last() == tok_view(input@[i as int]));
            }
            i = i + 1;
        }
        proof {
            assert(model.take(input@.len() as int) =~= model);
        }
        if text.len() == usize::MAX {
            return Err(EmbedError::Capacity);
        }
        let f = fence_len(&text);
        let ghost tv = text@;
        let mut out: Vec<Token> = Vec::new();
        out.push(Token::Lit(Lit::RawStr(text, f)));
        proof {
            assert(f as usize == fence_of(tv) as usize);
            assert(toks_view(out@) =~= seq![Tok::Lit(LitV::RawStr(tv, fence_of(tv) as usize))]);
        }
        Ok(out)
    }
}

/// Splitting the last token off the joined string-mode fragments.
pub proof fn lemma_frags_str_snoc(s: Seq<Tok>)
    requires
        s.len() > 0,
    ensures
        frags_str(s) == frags_str(s.drop_last()) + frag_str(s.last()),
    decreases s.len(),
{
    if s.len() == 1 {
        assert(frags_str(s.drop_first()) == Seq::<char>::empty());
        assert(frags_str(s.drop_last()) == Seq::<char>::empty());
        assert(frags_str(s) =~= frags_str(s.drop_last()) + frag_str(s.last()));
    } else {
        lemma_frags_str_snoc(s.drop_first());
        assert(s.drop_first().drop_last() =~= s.drop_last().drop_first());
        assert(s.drop_first().last() == s.last());
        assert(s.drop_last().len() > 0);
        assert(s.drop_last()[0] == s[0]);
        assert(frags_str(s.drop_last()) == frag_str(s[0]) + frags_str(s.drop_last().drop_first()));
        assert(frags_str(s) =~= frags_str(s.drop_last()) + frag_str(s.last()));
    }
}

/// Appends one flattened token's identifier fragment to `text`.
fn push_frag(text: &mut Vec<char>, t: &Token) -> (r: Result<(), EmbedError>)
    ensures
        match r {
            Ok(()) => frag(tok_view(*t)) == Ok::<Seq<char>, ErrV>(
                final(text)@.skip(old(text)@.len() as int),
            ) && final(text)@.take(old(text)@.len() as int) == old(text)@ && final(text)@.len()
                >= old(text)@.len(),
            Err(e) => frag(tok_view(*t)) == Err::<Seq<char>, ErrV>(e.deep_view()),
        },
{
    let ghost base = old(text)@;
    match t {
        Token::Ident(n) => push_all(text, n),
        Token::Punct(c) => text.push(*c),
        Token::Lit(l) => match l {
            Lit::Str(v) => push_all(text, v),
            Lit::RawStr(v, _) => push_all(text, v),
            Lit::Char(c) => text.push(*c),
            Lit::Int(v) => push_all(text, v),
            Lit::Float(v) => push_all(text, v),
            Lit::Bool(b) => {
                if *b {
                    let w = str_chars("true");
                    push_all(text, &w);
                    proof {
                        reveal_strlit("true");
                    }
                } else {
                    let w = str_chars("false");
                    push_all(text, &w);
                    proof {
                        reveal_strlit("false");
                    }
                }
            },
            Lit::Verbatim(v) => push_all(text, v),
            Lit::Byte(_) => {
                return Err(EmbedError::ByteLiteral);
            },
            Lit::ByteStr(_) => {
                return Err(EmbedError::ByteLiteral);
            },
        },
        Token::Group(_, _) => {},
    }
    proof {
        assert(text@.take(base.len() as int) =~= base);
        match frag(tok_view(*t)) {
            Ok(f) => {
                assert(text@.skip(base.len() as int) =~= f);
            },
            Err(_) => {},
        }
    }
    Ok(())
}

} // verus!
