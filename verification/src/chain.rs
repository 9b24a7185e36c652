use vstd::prelude::*;

use crate::case::{case_args_spec, case_seq, TransformCase};
use crate::concatenate::{concat_mode_of, concat_spec, TransformConcatenate};
use crate::error::{result_view, EmbedError, ErrV};
use crate::kinds::{
    flat_seq, ungroup_seq, TransformAppend, TransformCount, TransformFlatten, TransformPrefix,
    TransformReverse, TransformUngroup,
};
use crate::stringify::{stringify_spec, TransformStringify};
use crate::text::{dec_digits, str_chars};
use crate::token::{chars_eq, dup_chars, dup_tokens, tok_view, toks_view, Delim, LitV, Tok, Token};
use crate::unstringify::{unstr_seq, TransformUnstringify};

verus! {

broadcast use vstd::seq::group_seq_axioms, vstd::std_specs::vec::group_vec_axioms, crate::token::group_token_views;

/// A single transformation kind: one member of the fixed, closed
/// registry of recognized transforms.
#[derive(Clone, Copy, Debug, PartialEq, Eq, Structural)]
pub enum TransformKind {
    /// Rewrite identifiers and textual literals to a named case style.
    Case,
    /// Remove one level of grouping at the top level.
    Ungroup,
    /// Remove every level of grouping.
    Flatten,
    /// Reverse the order of the top-level tokens.
    Reverse,
    /// Render everything to one raw string literal.
    Stringify,
    /// Splice string literals back in as tokens.
    Unstringify,
    /// Join everything into one identifier or string literal.
    Concatenate,
    /// Emit the argument tokens after the input.
    Append,
    /// Emit the argument tokens before the input.
    Prefix,
    /// Emit the number of top-level tokens.
    Count,
}

/// A pending transformation: a kind plus its raw, un-interpreted
/// argument tokens (empty where no brace group followed the name).
#[derive(Debug)]
pub struct Transform {
    pub kind: TransformKind,
    pub args: Vec<Token>,
}

/// The mathematical model of a pending transformation.
pub struct TransformV {
    pub kind: TransformKind,
    pub args: Seq<Tok>,
}

impl DeepView for Transform {
    type V = TransformV;

    open spec fn deep_view(&self) -> TransformV {
        TransformV { kind: self.kind, args: toks_view(self.args@) }
    }
}

/// A transformation chain: a non-empty ordered list of transformations,
/// applied left to right.
#[derive(Debug)]
pub enum TransformChain {
    /// A terminal transformation.
    End(Transform),
    /// A transformation followed by the rest of the chain.
    Next(Transform, Box<TransformChain>),
}

/// The model of a chain: its transformations in application order.
pub open spec fn chain_view(c: TransformChain) -> Seq<TransformV>
    decreases c,
{
    match c {
        TransformChain::End(t) => seq![t.deep_view()],
        TransformChain::Next(t, rest) => seq![t.deep_view()] + chain_view(*rest),
    }
}

impl DeepView for TransformChain {
    type V = Seq<TransformV>;

    open spec fn deep_view(&self) -> Seq<TransformV> {
        chain_view(*self)
    }
}

/// One unfolding of the chain model.
pub proof fn lemma_chain_view_unfold(c: TransformChain)
    ensures
        chain_view(c) == (match c {
            TransformChain::End(t) => seq![t.deep_view()],
            TransformChain::Next(t, rest) => seq![t.deep_view()] + chain_view(*rest),
        }),
{
}

/// One unfolding of the chain's fold.
pub proof fn lemma_chain_expand_unfold(c: Seq<TransformV>, input: Seq<Tok>)
    ensures
        chain_expand(c, input) == (if c.len() == 0 {
            Ok::<Seq<Tok>, ErrV>(input)
        } else {
            match apply_transform(c[0].kind, c[0].args, input) {
                Err(e) => Err::<Seq<Tok>, ErrV>(e),
                Ok(next) => chain_expand(c.drop_first(), next),
            }
        }),
{
}

/// The registry: the transform kind a name denotes, if any.
pub open spec fn kind_of(n: Seq<char>) -> Option<TransformKind> {
    if n == "case"@ {
        Some(TransformKind::Case)
    } else if n == "ungroup"@ {
        Some(TransformKind::Ungroup)
    } else if n == "flatten"@ {
        Some(TransformKind::Flatten)
    } else if n == "reverse"@ {
        Some(TransformKind::Reverse)
    } else if n == "stringify"@ {
        Some(TransformKind::Stringify)
    } else if n == "unstringify"@ {
        Some(TransformKind::Unstringify)
    } else if n == "concatenate"@ {
        Some(TransformKind::Concatenate)
    } else if n == "append"@ {
        Some(TransformKind::Append)
    } else if n == "prefix"@ {
        Some(TransformKind::Prefix)
    } else if n == "count"@ {
        Some(TransformKind::Count)
    } else {
        None
    }
}

/// The registry lookup.
fn kind_of_exec(n: &Vec<char>) -> (r: Option<TransformKind>)
    ensures
        r == kind_of(n@),
{
    if chars_eq(n, &str_chars("case")) {
        Some(TransformKind::Case)
    } else if chars_eq(n, &str_chars("ungroup")) {
        Some(TransformKind::Ungroup)
    } else if chars_eq(n, &str_chars("flatten")) {
        Some(TransformKind::Flatten)
    } else if chars_eq(n, &str_chars("reverse")) {
        Some(TransformKind::Reverse)
    } else if chars_eq(n, &str_chars("stringify")) {
        Some(TransformKind::Stringify)
    } else if chars_eq(n, &str_chars("unstringify")) {
        Some(TransformKind::Unstringify)
    } else if chars_eq(n, &str_chars("concatenate")) {
        Some(TransformKind::Concatenate)
    } else if chars_eq(n, &str_chars("append")) {
        Some(TransformKind::Append)
    } else if chars_eq(n, &str_chars("prefix")) {
        Some(TransformKind::Prefix)
    } else if chars_eq(n, &str_chars("count")) {
        Some(TransformKind::Count)
    } else {
        None
    }
}

/// Whether a token is the given punctuation character.
pub fn is_punct(t: &Token, c: char) -> (r: bool)
    ensures
        r == (tok_view(*t) == Tok::Punct(c)),
{
    match t {
        Token::Punct(p) => *p == c,
        _ => false,
    }
}

/// Whether a token is an identifier.
pub fn is_ident_token(t: &Token) -> (r: bool)
    ensures
        r == (tok_view(*t) is Ident),
{
    match t {
        Token::Ident(_) => true,
        _ => false,
    }
}

/// What parsing a transform name at `i` yields: a colon, then an
/// identifier that the registry must recognize; an unrecognized name is
/// a fatal error carrying that name.
pub open spec fn parse_kind(s: Seq<Tok>, i: int) -> Result<(TransformKind, int), ErrV> {
    if !(0 <= i < s.len() && s[i] == Tok::Punct(':')) {
        Err(ErrV::ExpectedIdent)
    } else if !(i + 1 < s.len() && s[i + 1] is Ident) {
        Err(ErrV::ExpectedIdent)
    } else {
        match s[i + 1] {
            Tok::Ident(n) => match kind_of(n) {
                Some(k) => Ok((k, i + 2)),
                None => Err(ErrV::UnrecognizedTransform(n)),
            },
            _ => Err(ErrV::ExpectedIdent),
        }
    }
}

/// What parsing a whole chain at `i` yields: a name, an optional
/// curly-brace argument group, and, where a colon and an identifier
/// follow immediately, the rest of the chain.
pub open spec fn parse_chain(s: Seq<Tok>, i: int) -> Result<(Seq<TransformV>, int), ErrV>
    decreases s.len() - i,
    when 0 <= i <= s.len()
{
    match parse_kind(s, i) {
        Err(e) => Err(e),
        Ok((k, j0)) => {
            let has_args = i + 2 < s.len() && (s[i + 2] matches Tok::Group(Delim::Brace, _));
            let args = if has_args {
                match s[i + 2] {
                    Tok::Group(_, a) => a,
                    _ => Seq::empty(),
                }
            } else {
                Seq::empty()
            };
            let j = if has_args {
                i + 3
            } else {
                i + 2
            };
            let step = TransformV { kind: k, args };
            if j < s.len() && s[j] == Tok::Punct(':') && j + 1 < s.len() && s[j + 1] is Ident {
                match parse_chain(s, j) {
                    Err(e) => Err(e),
                    Ok((rest, e2)) => Ok((seq![step] + rest, e2)),
                }
            } else {
                Ok((seq![step], j))
            }
        },
    }
}

impl TransformKind {
    /// Parses a colon and a transform name at `pos`.
    pub fn parse(toks: &Vec<Token>, pos: usize) -> (r: Result<(TransformKind, usize), EmbedError>)
        requires
            pos <= toks.len(),
        ensures
            match r {
                Ok(p) => parse_kind(toks_view(toks@), pos as int) == Ok::<_, ErrV>(
                    (p.0, p.1 as int),
                ) && pos < p.1 <= toks.len(),
                Err(e) => parse_kind(toks_view(toks@), pos as int) == Err::<(TransformKind, int), _>(
                    e.deep_view(),
                ),
            },
    {
        if !(pos < toks.len() && is_punct(&toks[pos], ':')) {
            return Err(EmbedError::ExpectedIdent);
        }
        if !(toks.len() - pos > 1 && is_ident_token(&toks[pos + 1])) {
            return Err(EmbedError::ExpectedIdent);
        }
        match &toks[pos + 1] {
            Token::Ident(n) => match kind_of_exec(n) {
                Some(k) => Ok((k, pos + 2)),
                None => Err(EmbedError::UnrecognizedTransform(dup_chars(n))),
            },
            _ => Err(EmbedError::ExpectedIdent),
        }
    }
}

impl TransformChain {
    /// Parses a whole transform chain at `pos`.
    pub fn parse(toks: &Vec<Token>, pos: usize) -> (r: Result<(TransformChain, usize), EmbedError>)
        requires
            pos <= toks.len(),
        ensures
            match r {
                Ok(p) => parse_chain(toks_view(toks@), pos as int) == Ok::<_, ErrV>(
                    (p.0.deep_view(), p.1 as int),
                ) && pos < p.1 <= toks.len(),
                Err(e) => parse_chain(toks_view(toks@), pos as int) == Err::<
                    (Seq<TransformV>, int),
                    _,
                >(e.deep_view()),
            },
        decreases toks.len() - pos,
    {
        let k = match TransformKind::parse(toks, pos) {
            Ok((k, _)) => k,
            Err(e) => {
                return Err(e);
            },
        };
        let has_args = toks.len() - pos > 2 && (match &toks[pos + 2] {
            Token::Group(Delim::Brace, _) => true,
            _ => false,
        });
        let args: Vec<Token> = if has_args {
            match &toks[pos + 2] {
                Token::Group(_, a) => dup_tokens(a),
                _ => Vec::new(),
            }
        } else {
            Vec::new()
        };
        let j = if has_args {
            pos + 3
        } else {
            pos + 2
        };
        let step = Transform { kind: k, args };
        let cont = j < toks.len() && is_punct(&toks[j], ':') && toks.len() - j > 1
            && is_ident_token(&toks[j + 1]);
        if cont {
            match TransformChain::parse(toks, j) {
                Err(e) => Err(e),
                Ok((rest, e2)) => {
                    let r = TransformChain::Next(step, Box::new(rest));
                    proof {
                        assert(toks_view(Seq::<Token>::empty()) =~= Seq::<Tok>::empty());
                    }
                    Ok((r, e2))
                },
            }
        } else {
            proof {
                assert(toks_view(Seq::<Token>::empty()) =~= Seq::<Tok>::empty());
            }
            Ok((TransformChain::End(step), j))
        }
    }
}

/// What one transformation yields on an input sequence, after its raw
/// arguments are interpreted.
pub open spec fn apply_transform(k: TransformKind, args: Seq<Tok>, input: Seq<Tok>) -> Result<
    Seq<Tok>,
    ErrV,
> {
    match k {
        TransformKind::Case => match case_args_spec(args) {
            Err(e) => Err(e),
            Ok(st) => case_seq(input, st),
        },
        TransformKind::Ungroup => Ok(ungroup_seq(input)),
        TransformKind::Flatten => Ok(flat_seq(input)),
        TransformKind::Reverse => Ok(input.reverse()),
        TransformKind::Stringify => stringify_spec(input),
        TransformKind::Unstringify => Ok(unstr_seq(input)),
        TransformKind::Concatenate => match concat_mode_of(args) {
            Err(e) => Err(e),
            Ok(m) => concat_spec(input, m),
        },
        TransformKind::Append => Ok(input + args),
        TransformKind::Prefix => Ok(args + input),
        TransformKind::Count => Ok(seq![Tok::Lit(LitV::Int(dec_digits(input.len())))]),
    }
}

/// What a whole chain yields: a strict left-to-right fold, aborting at
/// the first failure.
pub open spec fn chain_expand(c: Seq<TransformV>, input: Seq<Tok>) -> Result<Seq<Tok>, ErrV>
    decreases c.len(),
{
    if c.len() == 0 {
        Ok(input)
    } else {
        match apply_transform(c[0].kind, c[0].args, input) {
            Err(e) => Err(e),
            Ok(next) => chain_expand(c.drop_first(), next),
        }
    }
}

impl Transform {
    /// An exact copy of this transformation.
    pub fn dup(&self) -> (r: Transform)
        ensures
            r.deep_view() == self.deep_view(),
    {
        Transform { kind: self.kind, args: dup_tokens(&self.args) }
    }

    /// Interprets this transformation's arguments and applies it.
    pub fn apply_to(&self, input: Vec<Token>) -> (r: Result<Vec<Token>, EmbedError>)
        ensures
            result_view(r) == apply_transform(
                self.kind,
                toks_view(self.args@),
                toks_view(input@),
            ),
    {
        match self.kind {
            TransformKind::Case => match TransformCase::new(&self.args) {
                Err(e) => Err(e),
                Ok(st) => TransformCase::apply(&input, st),
            },
            TransformKind::Ungroup => {
                let _ = TransformUngroup::new(&self.args);
                Ok(TransformUngroup::apply(&input))
            },
            TransformKind::Flatten => {
                let _ = TransformFlatten::new(&self.args);
                Ok(TransformFlatten::apply(&input))
            },
            TransformKind::Reverse => {
                let _ = TransformReverse::new(&self.args);
                Ok(TransformReverse::apply(&input))
            },
            TransformKind::Stringify => {
                let _ = TransformStringify::new(&self.args);
                TransformStringify::apply(&input)
            },
            TransformKind::Unstringify => {
                let _ = TransformUnstringify::new(&self.args);
                Ok(TransformUnstringify::apply(&input))
            },
            TransformKind::Concatenate => match TransformConcatenate::new(&self.args) {
                Err(e) => Err(e),
                Ok(m) => TransformConcatenate::apply(&input, m),
            },
            TransformKind::Append => Ok(TransformAppend::apply(&input, &self.args)),
            TransformKind::Prefix => Ok(TransformPrefix::apply(&input, &self.args)),
            TransformKind::Count => {
                let _ = TransformCount::new(&self.args);
                Ok(TransformCount::apply(&input))
            },
        }
    }
}

impl TransformChain {
    /// The chain's transformations as a flat list, in application
    /// order.
    pub fn to_list(&self) -> (r: Vec<Transform>)
        ensures
            r.deep_view() == self.deep_view(),
    {
        let mut out: Vec<Transform> = Vec::new();
        self.push_steps(&mut out);
        proof {
            assert(out.deep_view() =~= self.deep_view());
        }
        out
    }

    /// Appends the chain's transformations to `out`, in order.
    fn push_steps(&self, out: &mut Vec<Transform>)
        ensures
            final(out).deep_view() == old(out).deep_view() + chain_view(*self),
        decreases self,
    {
        proof {
            lemma_chain_view_unfold(*self);
        }
        match self {
            TransformChain::End(t) => {
                out.push(t.dup());
                assert(out.deep_view() =~= old(out).deep_view() + chain_view(*self));
            },
            TransformChain::Next(t, rest) => {
                let ghost mid = old(out).deep_view() + seq![t.deep_view()];
                out.push(t.dup());
                proof {
                    assert(out.deep_view() =~= mid);
                }
                rest.push_steps(out);
                assert(out.deep_view() =~= old(out).deep_view() + chain_view(*self));
            },
        }
    }

    /// Applies the whole chain to an input sequence, left to right,
    /// aborting at the first failure.
    pub fn expand(&self, input: Vec<Token>) -> (r: Result<Vec<Token>, EmbedError>)
        ensures
            result_view(r) == chain_expand(self.deep_view(), toks_view(input@)),
        decreases self,
    {
        match self {
            TransformChain::End(t) => {
                let ghost iv = toks_view(input@);
                let r = t.apply_to(input);
                proof {
                    lemma_chain_view_unfold(*self);
                    let c = self.deep_view();
                    assert(c[0] == t.deep_view());
                    assert(c.drop_first() =~= Seq::<TransformV>::empty());
                    lemma_chain_expand_unfold(c, iv);
                    match apply_transform(t.deep_view().kind, t.deep_view().args, iv) {
                        Ok(next) => {
                            lemma_chain_expand_unfold(c.drop_first(), next);
                        },
                        Err(_) => {},
                    }
                }
                r
            },
            TransformChain::Next(t, rest) => {
                let ghost iv = toks_view(input@);
                match t.apply_to(input) {
                    Err(e) => {
                        proof {
                            lemma_chain_view_unfold(*self);
                            let c = self.deep_view();
                            assert(c[0] == t.deep_view());
                            lemma_chain_expand_unfold(c, iv);
                        }
                        Err(e)
                    },
                    Ok(next) => {
                        let r = rest.expand(next);
                        proof {
                            lemma_chain_view_unfold(*self);
                            let c = self.deep_view();
                            assert(c[0] == t.deep_view());
                            assert(c.drop_first() =~= chain_view(**rest));
                            lemma_chain_expand_unfold(c, iv);
                        }
                        r
                    },
                }
            },
        }
    }
}

} // verus!
