use vstd::prelude::*;

use convert_case::{Case, Casing};

use crate::error::{EmbedError, ErrV};
use crate::lexer::{lex, lex_spec};
use crate::text::{bool_text, str_chars};
use crate::token::{chars_eq, tok_view, toks_view, Delim, Lit, LitV, Tok, Token};

verus! {

broadcast use vstd::seq::group_seq_axioms, vstd::std_specs::vec::group_vec_axioms, crate::token::group_token_views;

/// One member of the fixed registry of named case conventions.
#[derive(Clone, Copy, Debug, PartialEq, Eq, Structural)]
pub enum CaseStyle {
    Upper,
    Lower,
    Title,
    Toggle,
    Camel,
    Pascal,
    UpperCamel,
    Snake,
    UpperSnake,
    ScreamingSnake,
    Kebab,
    Cobol,
    UpperKebab,
    Train,
    Flat,
    UpperFlat,
    Alternating,
}

/// What the case conversion makes of a text: a function of the text and
/// the chosen style alone.
pub uninterp spec fn cased(s: Seq<char>, style: CaseStyle) -> Seq<char>;

/// The outside crate's case enumeration, declared so that it may pass
/// through the wrappers below.
#[verifier::external_type_specification]
#[verifier::external_body]
pub struct ExCase(Case);

/// Relies on convert_case's Case: maps each registry member to the
/// outside crate's variant of the same name.
#[verifier::external_body]
fn style_case(style: CaseStyle) -> Case {
    match style {
        CaseStyle::Upper => Case::Upper, CaseStyle::Lower => Case::Lower,
        CaseStyle::Title => Case::Title, CaseStyle::Toggle => Case::Toggle,
        CaseStyle::Camel => Case::Camel, CaseStyle::Pascal => Case::Pascal,
        CaseStyle::UpperCamel => Case::UpperCamel, CaseStyle::Snake => Case::Snake,
        CaseStyle::UpperSnake => Case::UpperSnake, CaseStyle::ScreamingSnake => Case::ScreamingSnake,
        CaseStyle::Kebab => Case::Kebab, CaseStyle::Cobol => Case::Cobol,
        CaseStyle::UpperKebab => Case::UpperKebab, CaseStyle::Train => Case::Train,
        CaseStyle::Flat => Case::Flat, CaseStyle::UpperFlat => Case::UpperFlat,
        CaseStyle::Alternating => Case::Alternating,
    }
}

/// Relies on convert_case's Casing::to_case: the conversion depends on
/// the input text and the chosen case alone.
#[verifier::external_body]
pub fn apply_case_style(s: &Vec<char>, style: CaseStyle) -> (r: Vec<char>)
    ensures
        r@ == cased(s@, style),
{
    let text: String = s.iter().collect();
    text.to_case(style_case(style)).chars().collect()
}

/// The registry member whose canonical spelling is `n`, if any.
pub open spec fn style_of(n: Seq<char>) -> Option<CaseStyle> {
    if n == "Upper"@ {
        Some(CaseStyle::Upper)
    } else if n == "Lower"@ {
        Some(CaseStyle::Lower)
    } else if n == "Title"@ {
        Some(CaseStyle::Title)
    } else if n == "Toggle"@ {
        Some(CaseStyle::Toggle)
    } else if n == "Camel"@ {
        Some(CaseStyle::Camel)
    } else if n == "Pascal"@ {
        Some(CaseStyle::Pascal)
    } else if n == "UpperCamel"@ {
        Some(CaseStyle::UpperCamel)
    } else if n == "Snake"@ {
        Some(CaseStyle::Snake)
    } else if n == "UpperSnake"@ {
        Some(CaseStyle::UpperSnake)
    } else if n == "ScreamingSnake"@ {
        Some(CaseStyle::ScreamingSnake)
    } else if n == "Kebab"@ {
        Some(CaseStyle::Kebab)
    } else if n == "Cobol"@ {
        Some(CaseStyle::Cobol)
    } else if n == "UpperKebab"@ {
        Some(CaseStyle::UpperKebab)
    } else if n == "Train"@ {
        Some(CaseStyle::Train)
    } else if n == "Flat"@ {
        Some(CaseStyle::Flat)
    } else if n == "UpperFlat"@ {
        Some(CaseStyle::UpperFlat)
    } else if n == "Alternating"@ {
        Some(CaseStyle::Alternating)
    } else {
        None
    }
}

/// What the case transform's argument parse yields: the argument must
/// be one identifier; its name, folded to the registry's canonical
/// spelling, must name a registry member.
pub open spec fn case_args_spec(args: Seq<Tok>) -> Result<CaseStyle, ErrV> {
    if args.len() != 1 {
        Err(ErrV::ExpectedIdent)
    } else {
        match args[0] {
            Tok::Ident(n) => match style_of(cased(n, CaseStyle::Pascal)) {
                Some(st) => Ok(st),
                None => Err(ErrV::UnknownCase(n)),
            },
            _ => Err(ErrV::ExpectedIdent),
        }
    }
}

/// Re-reading rewritten text as tokens; failure aborts the transform.
pub open spec fn relex(text: Seq<char>) -> Result<Seq<Tok>, ErrV> {
    match lex_spec(text) {
        Some(ts) => Ok(ts),
        None => Err(ErrV::Reparse),
    }
}

/// What the case transform makes of one token: identifiers and the
/// textual values of string and boolean literals are rewritten to the
/// chosen case and read back as tokens; a group's contents are
/// rewritten recursively and rebuilt as a curly-brace group; all other
/// tokens pass through unchanged.
pub open spec fn case_tok(t: Tok, style: CaseStyle) -> Result<Seq<Tok>, ErrV>
    decreases t, 1int,
    via case_tok_dec
{
    match t {
        Tok::Ident(n) => relex(cased(n, style)),
        Tok::Lit(LitV::Str(v)) => relex(cased(v, style)),
        Tok::Lit(LitV::RawStr(v, _)) => relex(cased(v, style)),
        Tok::Lit(LitV::Bool(b)) => relex(cased(bool_text(b), style)),
        Tok::Group(_, ts) => match case_seq(ts, style) {
            Err(e) => Err(e),
            Ok(out) => Ok(seq![Tok::Group(Delim::Brace, out)]),
        },
        _ => Ok(seq![t]),
    }
}

/// The case transform over a token sequence, aborting at the first
/// failure.
pub open spec fn case_seq(s: Seq<Tok>, style: CaseStyle) -> Result<Seq<Tok>, ErrV>
    decreases s, 0int,
{
    if s.len() == 0 {
        Ok(Seq::empty())
    } else {
        match case_tok(s[0], style) {
            Err(e) => Err(e),
            Ok(f) => match case_seq(s.drop_first(), style) {
                Err(e) => Err(e),
                Ok(r) => Ok(f + r),
            },
        }
    }
}

#[via_fn]
proof fn case_tok_dec(t: Tok, style: CaseStyle) {
    if let Tok::Group(d, ts) = t {
        assert(decreases_to!(t => ts));
    }
}

/// A transformation that rewrites the tokens to a named case style.
pub struct TransformCase;

impl TransformCase {
    /// Parses the argument: one identifier naming a case style, folded
    /// to the registry's canonical spelling and looked up there.
    pub fn new(args: &Vec<Token>) -> (r: Result<CaseStyle, EmbedError>)
        ensures
            match r {
                Ok(st) => case_args_spec(toks_view(args@)) == Ok::<CaseStyle, ErrV>(st),
                Err(e) => case_args_spec(toks_view(args@)) == Err::<CaseStyle, ErrV>(
                    e.deep_view(),
                ),
            },
    {
        if args.len() != 1 {
            return Err(EmbedError::ExpectedIdent);
        }
        match &args[0] {
            Token::Ident(n) => {
                let norm = apply_case_style(n, CaseStyle::Pascal);
                let r = Self::lookup_style(&norm);
                match r {
                    Some(st) => Ok(st),
                    None => Err(EmbedError::UnknownCase(crate::token::dup_chars(n))),
                }
            },
            _ => Err(EmbedError::ExpectedIdent),
        }
    }

    /// The registry member whose canonical spelling is `n`, if any.
    fn lookup_style(n: &Vec<char>) -> (r: Option<CaseStyle>)
        ensures
            r == style_of(n@),
    {
        if chars_eq(n, &str_chars("Upper")) {
            Some(CaseStyle::Upper)
        } else if chars_eq(n, &str_chars("Lower")) {
            Some(CaseStyle::Lower)
        } else if chars_eq(n, &str_chars("Title")) {
            Some(CaseStyle::Title)
        } else if chars_eq(n, &str_chars("Toggle")) {
            Some(CaseStyle::Toggle)
        } else if chars_eq(n, &str_chars("Camel")) {
            Some(CaseStyle::Camel)
        } else if chars_eq(n, &str_chars("Pascal")) {
            Some(CaseStyle::Pascal)
        } else if chars_eq(n, &str_chars("UpperCamel")) {
            Some(CaseStyle::UpperCamel)
        } else if chars_eq(n, &str_chars("Snake")) {
            Some(CaseStyle::Snake)
        } else if chars_eq(n, &str_chars("UpperSnake")) {
            Some(CaseStyle::UpperSnake)
        } else if chars_eq(n, &str_chars("ScreamingSnake")) {
            Some(CaseStyle::ScreamingSnake)
        } else if chars_eq(n, &str_chars("Kebab")) {
            Some(CaseStyle::Kebab)
        } else if chars_eq(n, &str_chars("Cobol")) {
            Some(CaseStyle::Cobol)
        } else if chars_eq(n, &str_chars("UpperKebab")) {
            Some(CaseStyle::UpperKebab)
        } else if chars_eq(n, &str_chars("Train")) {
            Some(CaseStyle::Train)
        } else if chars_eq(n, &str_chars("Flat")) {
            Some(CaseStyle::Flat)
        } else if chars_eq(n, &str_chars("UpperFlat")) {
            Some(CaseStyle::UpperFlat)
        } else if chars_eq(n, &str_chars("Alternating")) {
            Some(CaseStyle::Alternating)
        } else {
            None
        }
    }

    /// Applies the chosen case style to the whole sequence.
    pub fn apply(input: &Vec<Token>, style: CaseStyle) -> (r: Result<Vec<Token>, EmbedError>)
        ensures
            crate::error::result_view(r) == case_seq(toks_view(input@), style),
    {
        let mut out: Vec<Token> = Vec::new();
        match case_into(&mut out, input, style) {
            Ok(()) => {
                proof {
                    assert(toks_view(out@).skip(0) =~= toks_view(out@));
                }
                Ok(out)
            },
            Err(e) => Err(e),
        }
    }
}

/// Appends the case transform of every token of `input` to `out`.
fn case_into(out: &mut Vec<Token>, input: &Vec<Token>, style: CaseStyle) -> (r: Result<
    (),
    EmbedError,
>)
    ensures
        match r {
            Ok(()) => case_seq(toks_view(input@), style) == Ok::<Seq<Tok>, ErrV>(
                toks_view(final(out)@).skip(toks_view(old(out)@).len() as int),
            ) && toks_view(final(out)@).take(toks_view(old(out)@).len() as int) == toks_view(
                old(out)@,
            ) && toks_view(final(out)@).len() >= toks_view(old(out)@).len(),
            Err(e) => case_seq(toks_view(input@), style) == Err::<Seq<Tok>, ErrV>(e.deep_view()),
        },
    decreases toks_view(input@), 1int,
{
    let ghost model = toks_view(input@);
    let ghost base = toks_view(old(out)@);
    proof {
        assert(model.skip(0) =~= model);
        assert(toks_view(out@).skip(base.len() as int) =~= Seq::<Tok>::empty());
        match case_seq(model, style) {
            Ok(r) => {
                assert(Seq::<Tok>::empty() + r =~= r);
            },
            Err(_) => {},
        }
        assert(toks_view(out@).take(base.len() as int) =~= base);
    }
    let mut i: usize = 0;
    while i < input.len()
        invariant
            i <= input.len(),
            model == toks_view(input@),
            base == toks_view(old(out)@),
            toks_view(out@).len() >= base.len(),
            toks_view(out@).take(base.len() as int) == base,
            case_seq(model, style) == (match case_seq(model.skip(i as int), style) {
                Err(e) => Err::<Seq<Tok>, ErrV>(e),
                Ok(r) => Ok::<Seq<Tok>, ErrV>(
                    toks_view(out@).skip(base.len() as int) + r,
                ),
            }),
        decreases input.len() - i,
    {
        proof {
            assert(decreases_to!(model => model[i as int]));
        }
        let ghost before = toks_view(out@);
        match case_one(out, &input[i], style) {
            Ok(()) => {},
            Err(e) => {
                proof {
                    assert(model.skip(i as int)[0] == model[i as int]);
                }
                return Err(e);
            },
        }
        proof {
            assert(model.skip(i as int)[0] == model[i as int]);
            assert(model.skip(i as int).drop_first() =~= model.skip(i + 1 as int));
            assert(before.len() >= base.len());
            assert(toks_view(out@).take(before.len() as int) == before);
            assert(toks_view(out@).len() >= before.len());
            assert(toks_view(out@).take(base.len() as int) =~= base);
            let pold = before.skip(base.len() as int);
            let delta = toks_view(out@).skip(before.len() as int);
            assert(toks_view(out@).skip(base.len() as int) =~= pold + delta);
            match case_seq(model.skip(i + 1 as int), style) {
                Ok(r2) => {
                    assert(pold + (delta + r2) =~= (pold + delta) + r2);
                },
                Err(_) => {},
            }
        }
        i = i + 1;
    }
    proof {
        assert(model.skip(input@.len() as int) =~= Seq::<Tok>::empty());
        assert(case_seq(Seq::<Tok>::empty(), style) == Ok::<Seq<Tok>, ErrV>(Seq::<Tok>::empty()));
        assert(toks_view(out@).skip(base.len() as int) + Seq::<Tok>::empty() =~= toks_view(
            out@,
        ).skip(base.len() as int));
    }
    Ok(())
}

/// Appends the case transform of one token to `out`.
fn case_one(out: &mut Vec<Token>, t: &Token, style: CaseStyle) -> (r: Result<(), EmbedError>)
    ensures
        match r {
            Ok(()) => case_tok(tok_view(*t), style) == Ok::<Seq<Tok>, ErrV>(
                toks_view(final(out)@).skip(toks_view(old(out)@).len() as int),
            ) && toks_view(final(out)@).take(toks_view(old(out)@).len() as int) == toks_view(
                old(out)@,
            ) && toks_view(final(out)@).len() >= toks_view(old(out)@).len(),
            Err(e) => case_tok(tok_view(*t), style) == Err::<Seq<Tok>, ErrV>(e.deep_view()),
        },
    decreases tok_view(*t), 0int,
{
    let ghost base = toks_view(old(out)@);
    match t {
        Token::Ident(n) => {
            let text = apply_case_style(n, style);
            relex_into(out, &text)
        },
        Token::Lit(l) => match l {
            Lit::Str(v) => {
                let text = apply_case_style(v, style);
                relex_into(out, &text)
            },
            Lit::RawStr(v, _) => {
                let text = apply_case_style(v, style);
                relex_into(out, &text)
            },
            Lit::Bool(b) => {
                let word = if *b {
                    str_chars("true")
                } else {
                    str_chars("false")
                };
                proof {
                    reveal_strlit("true");
                    reveal_strlit("false");
                    assert(word@ =~= bool_text(*b));
                }
                let text = apply_case_style(&word, style);
                relex_into(out, &text)
            },
            other => {
                let d = Token::Lit(crate::token::dup_lit(other));
                out.push(d);
                proof {
                    assert(toks_view(out@).take(base.len() as int) =~= base);
                    assert(toks_view(out@).skip(base.len() as int) =~= seq![tok_view(*t)]);
                }
                Ok(())
            },
        },
        Token::Group(_, ts) => {
            proof {
                assert(decreases_to!(tok_view(*t) => tok_view(*t)->Group_1));
                assert(tok_view(*t)->Group_1 == toks_view(ts@));
            }
            let mut inner: Vec<Token> = Vec::new();
            match case_into(&mut inner, ts, style) {
                Ok(()) => {
                    proof {
                        assert(toks_view(inner@).skip(0) =~= toks_view(inner@));
                    }
                    out.push(Token::Group(Delim::Brace, inner));
                    proof {
                        assert(toks_view(out@).take(base.len() as int) =~= base);
                        assert(toks_view(out@).skip(base.len() as int) =~= seq![
                            Tok::Group(Delim::Brace, toks_view(inner@)),
                        ]);
                    }
                    Ok(())
                },
                Err(e) => Err(e),
            }
        },
        other => {
            let d = crate::token::dup_token(other);
            out.push(d);
            proof {
                assert(toks_view(out@).take(base.len() as int) =~= base);
                assert(toks_view(out@).skip(base.len() as int) =~= seq![tok_view(*t)]);
            }
            Ok(())
        },
    }
}

/// Appends the tokens read back from rewritten text to `out`.
fn relex_into(out: &mut Vec<Token>, text: &Vec<char>) -> (r: Result<(), EmbedError>)
    ensures
        match r {
            Ok(()) => relex(text@) == Ok::<Seq<Tok>, ErrV>(
                toks_view(final(out)@).skip(toks_view(old(out)@).len() as int),
            ) && toks_view(final(out)@).take(toks_view(old(out)@).len() as int) == toks_view(
                old(out)@,
            ) && toks_view(final(out)@).len() >= toks_view(old(out)@).len(),
            Err(e) => relex(text@) == Err::<Seq<Tok>, ErrV>(e.deep_view()),
        },
{
    let ghost base = toks_view(old(out)@);
    match lex(text) {
        Some(ts) => {
            crate::token::extend_tokens(out, &ts);
            proof {
                assert(toks_view(out@).take(base.len() as int) =~= base);
                assert(toks_view(out@).skip(base.len() as int) =~= toks_view(ts@));
            }
            Ok(())
        },
        None => Err(EmbedError::Reparse),
    }
}

} // verus!
