use vstd::prelude::*;

use crate::chain::{
    chain_expand, chain_view, is_ident_token, is_punct, parse_chain, TransformChain, TransformV,
};
use crate::error::{result_view, EmbedError, ErrV};
use crate::token::{
    dup_token, lemma_seq_height_bound, seq_height, tok_height, tok_view, toks_view, Delim, Tok,
    Token,
};

verus! {

broadcast use vstd::seq::group_seq_axioms, vstd::std_specs::vec::group_vec_axioms, crate::token::group_token_views;

/// The mathematical model of a segment.
#[verifier::ext_equal]
pub enum SegV {
    /// One token, passed through untouched.
    Untouched(Tok),
    /// One token together with the chain applied to it.
    Modified(Tok, Seq<TransformV>),
}

/// The mathematical model of a sequence.
#[verifier::ext_equal]
pub enum SeqnV {
    /// One token, passed through untouched.
    Pass(Tok),
    /// A transformation block, with its optional finalizer chain.
    Trans(Seq<SegV>, Option<Seq<TransformV>>),
}

/// An untouched token inside a block.
#[derive(Debug)]
pub struct SegmentUntouched(pub Token);

/// A token paired with the transformation chain applied to it.
#[derive(Debug)]
pub struct SegmentModified {
    pub tree: Token,
    pub chain: TransformChain,
}

/// A segment in a transformation block: one token, untouched or
/// carrying a transformation chain.
#[derive(Debug)]
pub enum Segment {
    Modified(SegmentModified),
    Untouched(SegmentUntouched),
}

impl DeepView for Segment {
    type V = SegV;

    open spec fn deep_view(&self) -> SegV {
        match self {
            Segment::Untouched(u) => SegV::Untouched(tok_view(u.0)),
            Segment::Modified(m) => SegV::Modified(tok_view(m.tree), chain_view(m.chain)),
        }
    }
}

/// A transformation block: the segments between the `<` and `>`
/// markers of a marked region.
#[derive(Debug)]
pub struct Block {
    pub segment_list: Vec<Segment>,
}

impl DeepView for Block {
    type V = Seq<SegV>;

    open spec fn deep_view(&self) -> Seq<SegV> {
        self.segment_list.deep_view()
    }
}

/// A single sequence at the top level: a pass-through token or a
/// transformation block with an optional finalizer chain.
#[derive(Debug)]
pub enum Sequence {
    /// A single pass-through token.
    TokenTree(Token),
    /// A transformed block.
    Transform {
        block: Block,
        /// A finalizer: a chain applied to the entire block's output.
        chain: Option<TransformChain>,
    },
}

impl DeepView for Sequence {
    type V = SeqnV;

    open spec fn deep_view(&self) -> SeqnV {
        match self {
            Sequence::TokenTree(t) => SeqnV::Pass(tok_view(*t)),
            Sequence::Transform { block, chain } => SeqnV::Trans(
                block.deep_view(),
                match chain {
                    None => None,
                    Some(c) => Some(chain_view(*c)),
                },
            ),
        }
    }
}

/// An embed: the ordered list of sequences of one whole input.
#[derive(Debug)]
pub struct Embed(pub Vec<Sequence>);

impl DeepView for Embed {
    type V = Seq<SeqnV>;

    open spec fn deep_view(&self) -> Seq<SeqnV> {
        self.0.deep_view()
    }
}

/// What parsing one segment at `i` yields: one token, then a chain
/// where a colon and an identifier follow immediately.
pub open spec fn parse_segment(s: Seq<Tok>, i: int) -> Result<(SegV, int), ErrV> {
    if !(0 <= i < s.len()) {
        Err(ErrV::MissingCloseMarker)
    } else {
        let t = s[i];
        if i + 1 < s.len() && s[i + 1] == Tok::Punct(':') && i + 2 < s.len() && s[i + 2] is Ident {
            match parse_chain(s, i + 1) {
                Err(e) => Err(e),
                Ok((c, j)) => Ok((SegV::Modified(t, c), j)),
            }
        } else {
            Ok((SegV::Untouched(t), i + 1))
        }
    }
}

/// What parsing segments from `i` yields: segments until a closing `>`
/// marker, which is consumed; running out of tokens first is an error.
pub open spec fn parse_segments(s: Seq<Tok>, i: int) -> Result<(Seq<SegV>, int), ErrV>
    decreases s.len() - i,
    when 0 <= i <= s.len()
{
    if i < s.len() && s[i] == Tok::Punct('>') {
        Ok((Seq::empty(), i + 1))
    } else {
        match parse_segment(s, i) {
            Err(e) => Err(e),
            Ok((sg, j)) => if i < j <= s.len() {
                match parse_segments(s, j) {
                    Err(e) => Err(e),
                    Ok((rest, e2)) => Ok((seq![sg] + rest, e2)),
                }
            } else {
                Err(ErrV::MissingCloseMarker)
            },
        }
    }
}

/// What parsing a whole block body yields: a leading `<` marker, the
/// segments, the closing `>` marker, and nothing after it.
pub open spec fn parse_block(s: Seq<Tok>) -> Result<Seq<SegV>, ErrV> {
    if !(s.len() > 0 && s[0] == Tok::Punct('<')) {
        Err(ErrV::MissingOpenMarker)
    } else {
        match parse_segments(s, 1) {
            Err(e) => Err(e),
            Ok((segs, j)) => if j == s.len() {
                Ok(segs)
            } else {
                Err(ErrV::TrailingTokens)
            },
        }
    }
}

/// Whether a token is recognized as a marked region: a square-bracket
/// group whose first inner token is `<` and whose last is `>`.
pub open spec fn is_marked_region(t: Tok) -> bool {
    match t {
        Tok::Group(Delim::Bracket, inner) => inner.len() >= 2 && inner[0] == Tok::Punct('<')
            && inner[inner.len() - 1] == Tok::Punct('>'),
        _ => false,
    }
}

/// What parsing one sequence at `i` yields: a recognized marked region
/// becomes a block (with a finalizer chain where a colon and an
/// identifier follow); everything else passes through.
pub open spec fn parse_sequence(s: Seq<Tok>, i: int) -> Result<(SeqnV, int), ErrV> {
    if !(0 <= i < s.len()) {
        Err(ErrV::MissingCloseMarker)
    } else {
        let t = s[i];
        if is_marked_region(t) {
            let inner = match t {
                Tok::Group(_, inner) => inner,
                _ => Seq::empty(),
            };
            match parse_block(inner) {
                Err(e) => Err(e),
                Ok(segs) => if i + 1 < s.len() && s[i + 1] == Tok::Punct(':') && i + 2 < s.len()
                    && s[i + 2] is Ident {
                    match parse_chain(s, i + 1) {
                        Err(e) => Err(e),
                        Ok((c, j)) => Ok((SeqnV::Trans(segs, Some(c)), j)),
                    }
                } else {
                    Ok((SeqnV::Trans(segs, None), i + 1))
                },
            }
        } else {
            Ok((SeqnV::Pass(t), i + 1))
        }
    }
}

/// What parsing every sequence from `i` to the end yields.
pub open spec fn parse_sequences(s: Seq<Tok>, i: int) -> Result<Seq<SeqnV>, ErrV>
    decreases s.len() - i,
    when 0 <= i <= s.len()
{
    if i >= s.len() {
        Ok(Seq::empty())
    } else {
        match parse_sequence(s, i) {
            Err(e) => Err(e),
            Ok((q, j)) => if i < j <= s.len() {
                match parse_sequences(s, j) {
                    Err(e) => Err(e),
                    Ok(rest) => Ok(seq![q] + rest),
                }
            } else {
                Err(ErrV::MissingCloseMarker)
            },
        }
    }
}

/// What parsing a whole token sequence as an embed yields.
pub open spec fn parse_embed(s: Seq<Tok>) -> Result<Seq<SeqnV>, ErrV> {
    parse_sequences(s, 0)
}

/// What one segment expands to: the token itself, or its chain's
/// output on that token.
pub open spec fn seg_expand(g: SegV) -> Result<Seq<Tok>, ErrV> {
    match g {
        SegV::Untouched(t) => Ok(seq![t]),
        SegV::Modified(t, c) => chain_expand(c, seq![t]),
    }
}

/// What a block expands to: its segments' expansions, concatenated.
pub open spec fn block_expand(segs: Seq<SegV>) -> Result<Seq<Tok>, ErrV>
    decreases segs.len(),
{
    if segs.len() == 0 {
        Ok(Seq::empty())
    } else {
        match seg_expand(segs[0]) {
            Err(e) => Err(e),
            Ok(f) => match block_expand(segs.drop_first()) {
                Err(e) => Err(e),
                Ok(r) => Ok(f + r),
            },
        }
    }
}

/// What one sequence expands to: the token itself, or the block's
/// expansion with the finalizer chain applied to all of it.
pub open spec fn seqn_expand(q: SeqnV) -> Result<Seq<Tok>, ErrV> {
    match q {
        SeqnV::Pass(t) => Ok(seq![t]),
        SeqnV::Trans(b, fin) => match block_expand(b) {
            Err(e) => Err(e),
            Ok(out) => match fin {
                None => Ok(out),
                Some(c) => chain_expand(c, out),
            },
        },
    }
}

/// What an embed expands to: its sequences' expansions, concatenated.
pub open spec fn embed_expand(e: Seq<SeqnV>) -> Result<Seq<Tok>, ErrV>
    decreases e.len(),
{
    if e.len() == 0 {
        Ok(Seq::empty())
    } else {
        match seqn_expand(e[0]) {
            Err(e2) => Err(e2),
            Ok(f) => match embed_expand(e.drop_first()) {
                Err(e2) => Err(e2),
                Ok(r) => Ok(f + r),
            },
        }
    }
}

/// The height of a sequence never grows when its first token is
/// dropped.
pub proof fn lemma_seq_height_drop(s: Seq<Tok>)
    requires
        s.len() > 0,
    ensures
        seq_height(s.drop_first()) <= seq_height(s),
{
}

/// What the whole recursive expansion yields: every group's contents
/// are fully expanded first, depth first, and the rebuilt top level is
/// then parsed as an embed and expanded.
pub open spec fn expand_all(s: Seq<Tok>) -> Result<Seq<Tok>, ErrV>
    decreases seq_height(s), s.len(), 2int,
{
    match pre_seq(s) {
        Err(e) => Err(e),
        Ok(p) => match parse_embed(p) {
            Err(e) => Err(e),
            Ok(e) => embed_expand(e),
        },
    }
}

/// The depth-first pre-expansion of every token of a sequence.
pub open spec fn pre_seq(s: Seq<Tok>) -> Result<Seq<Tok>, ErrV>
    decreases seq_height(s), s.len(), 1int,
    via pre_seq_dec
{
    if s.len() == 0 {
        Ok(Seq::empty())
    } else {
        match pre_one(s[0]) {
            Err(e) => Err(e),
            Ok(f) => match pre_seq(s.drop_first()) {
                Err(e) => Err(e),
                Ok(r) => Ok(f + r),
            },
        }
    }
}

/// The depth-first pre-expansion of one token: a group's contents are
/// expanded in full and the group is rebuilt with the same delimiter;
/// every other token passes through.
pub open spec fn pre_one(t: Tok) -> Result<Seq<Tok>, ErrV>
    decreases tok_height(t), 0int, 0int,
{
    match t {
        Tok::Group(d, inner) => match expand_all(inner) {
            Err(e) => Err(e),
            Ok(x) => Ok(seq![Tok::Group(d, x)]),
        },
        _ => Ok(seq![t]),
    }
}

#[via_fn]
proof fn pre_seq_dec(s: Seq<Tok>) {
    if s.len() > 0 {
        lemma_seq_height_bound(s, 0);
        lemma_seq_height_drop(s);
    }
}

/// One unfolding of the embed fold.
pub proof fn lemma_embed_expand_unfold(e: Seq<SeqnV>)
    ensures
        embed_expand(e) == (if e.len() == 0 {
            Ok::<Seq<Tok>, ErrV>(Seq::empty())
        } else {
            match seqn_expand(e[0]) {
                Err(e2) => Err::<Seq<Tok>, ErrV>(e2),
                Ok(f) => match embed_expand(e.drop_first()) {
                    Err(e2) => Err::<Seq<Tok>, ErrV>(e2),
                    Ok(r) => Ok::<Seq<Tok>, ErrV>(f + r),
                },
            }
        }),
{
}

/// One unfolding of the whole expansion.
pub proof fn lemma_expand_all_unfold(s: Seq<Tok>)
    ensures
        expand_all(s) == (match pre_seq(s) {
            Err(e) => Err::<Seq<Tok>, ErrV>(e),
            Ok(p) => match parse_embed(p) {
                Err(e) => Err::<Seq<Tok>, ErrV>(e),
                Ok(e) => embed_expand(e),
            },
        }),
{
}

/// One unfolding of the pre-expansion fold.
pub proof fn lemma_pre_seq_unfold(s: Seq<Tok>)
    ensures
        pre_seq(s) == (if s.len() == 0 {
            Ok::<Seq<Tok>, ErrV>(Seq::empty())
        } else {
            match pre_one(s[0]) {
                Err(e) => Err::<Seq<Tok>, ErrV>(e),
                Ok(f) => match pre_seq(s.drop_first()) {
                    Err(e) => Err::<Seq<Tok>, ErrV>(e),
                    Ok(r) => Ok::<Seq<Tok>, ErrV>(f + r),
                },
            }
        }),
{
}

/// One unfolding of the pre-expansion of a single token.
pub proof fn lemma_pre_one_unfold(t: Tok)
    ensures
        pre_one(t) == (match t {
            Tok::Group(d, inner) => match expand_all(inner) {
                Err(e) => Err::<Seq<Tok>, ErrV>(e),
                Ok(x) => Ok::<Seq<Tok>, ErrV>(seq![Tok::Group(d, x)]),
            },
            _ => Ok::<Seq<Tok>, ErrV>(seq![t]),
        }),
{
}

impl Segment {
    /// Parses one segment at `pos`: a token, then a chain where a colon
    /// and an identifier follow immediately.
    pub fn parse(toks: &Vec<Token>, pos: usize) -> (r: Result<(Segment, usize), EmbedError>)
        requires
            pos <= toks.len(),
        ensures
            match r {
                Ok(p) => parse_segment(toks_view(toks@), pos as int) == Ok::<_, ErrV>(
                    (p.0.deep_view(), p.1 as int),
                ) && pos < p.1 <= toks.len(),
                Err(e) => parse_segment(toks_view(toks@), pos as int) == Err::<(SegV, int), _>(
                    e.deep_view(),
                ),
            },
    {
        if pos >= toks.len() {
            return Err(EmbedError::MissingCloseMarker);
        }
        let t = dup_token(&toks[pos]);
        let cont = toks.len() - pos > 1 && is_punct(&toks[pos + 1], ':') && toks.len() - pos > 2
            && is_ident_token(&toks[pos + 2]);
        if cont {
            match TransformChain::parse(toks, pos + 1) {
                Err(e) => Err(e),
                Ok((c, j)) => Ok((Segment::Modified(SegmentModified { tree: t, chain: c }), j)),
            }
        } else {
            Ok((Segment::Untouched(SegmentUntouched(t)), pos + 1))
        }
    }

    /// Expands this segment.
    pub fn expand(&self) -> (r: Result<Vec<Token>, EmbedError>)
        ensures
            result_view(r) == seg_expand(self.deep_view()),
    {
        match self {
            Segment::Untouched(u) => {
                let mut out: Vec<Token> = Vec::new();
                out.push(dup_token(&u.0));
                proof {
                    assert(toks_view(out@) =~= seq![tok_view(u.0)]);
                }
                Ok(out)
            },
            Segment::Modified(m) => m.expand(),
        }
    }
}

impl SegmentModified {
    /// Expands this segment: the chain applied to its one token.
    pub fn expand(&self) -> (r: Result<Vec<Token>, EmbedError>)
        ensures
            result_view(r) == chain_expand(chain_view(self.chain), seq![tok_view(self.tree)]),
    {
        let mut start: Vec<Token> = Vec::new();
        start.push(dup_token(&self.tree));
        proof {
            assert(toks_view(start@) =~= seq![tok_view(self.tree)]);
        }
        self.chain.expand(start)
    }
}

impl Block {
    /// Parses a whole marked-region body: the `<` marker, the segments,
    /// the `>` marker, and nothing after it.
    pub fn parse(toks: &Vec<Token>) -> (r: Result<Block, EmbedError>)
        ensures
            match r {
                Ok(b) => parse_block(toks_view(toks@)) == Ok::<Seq<SegV>, ErrV>(b.deep_view()),
                Err(e) => parse_block(toks_view(toks@)) == Err::<Seq<SegV>, ErrV>(e.deep_view()),
            },
    {
        let ghost model = toks_view(toks@);
        if !(toks.len() > 0 && is_punct(&toks[0], '<')) {
            return Err(EmbedError::MissingOpenMarker);
        }
        let mut segs: Vec<Segment> = Vec::new();
        let mut pos: usize = 1;
        loop
            invariant
                1 <= pos <= toks.len(),
                model == toks_view(toks@),
                model.len() > 0 && model[0] == Tok::Punct('<'),
                parse_segments(model, 1) == (match parse_segments(model, pos as int) {
                    Err(e) => Err::<(Seq<SegV>, int), ErrV>(e),
                    Ok((rest, e2)) => Ok::<(Seq<SegV>, int), ErrV>((segs.deep_view() + rest, e2)),
                }),
            decreases toks.len() - pos,
        {
            if pos < toks.len() && is_punct(&toks[pos], '>') {
                proof {
                    assert(parse_segments(model, pos as int) == Ok::<(Seq<SegV>, int), ErrV>(
                        (Seq::empty(), pos + 1 as int),
                    ));
                    assert(segs.deep_view() + Seq::<SegV>::empty() =~= segs.deep_view());
                }
                if pos + 1 == toks.len() {
                    return Ok(Block { segment_list: segs });
                } else {
                    return Err(EmbedError::TrailingTokens);
                }
            }
            if pos >= toks.len() {
                return Err(EmbedError::MissingCloseMarker);
            }
            let ghost prev = segs.deep_view();
            match Segment::parse(toks, pos) {
                Err(e) => {
                    return Err(e);
                },
                Ok((sg, j)) => {
                    segs.push(sg);
                    proof {
                        match parse_segments(model, j as int) {
                            Ok((rest, e2)) => {
                                assert(prev + (seq![sg.deep_view()] + rest) =~= segs.deep_view()
                                    + rest);
                            },
                            Err(_) => {},
                        }
                        assert(segs.deep_view() =~= prev + seq![sg.deep_view()]);
                    }
                    pos = j;
                },
            }
        }
    }

    /// Expands this block: its segments' expansions, concatenated.
    pub fn expand(&self) -> (r: Result<Vec<Token>, EmbedError>)
        ensures
            result_view(r) == block_expand(self.deep_view()),
    {
        let ghost model = self.deep_view();
        let mut out: Vec<Token> = Vec::new();
        let mut i: usize = 0;
        proof {
            assert(model.skip(0) =~= model);
            match block_expand(model) {
                Ok(r2) => {
                    assert(Seq::<Tok>::empty() + r2 =~= r2);
                },
                Err(_) => {},
            }
            assert(toks_view(out@) =~= Seq::<Tok>::empty());
        }
        while i < self.segment_list.len()
            invariant
                i <= self.segment_list.len(),
                model == self.deep_view(),
                block_expand(model) == (match block_expand(model.skip(i as int)) {
                    Err(e) => Err::<Seq<Tok>, ErrV>(e),
                    Ok(r2) => Ok::<Seq<Tok>, ErrV>(toks_view(out@) + r2),
                }),
            decreases self.segment_list.len() - i,
        {
            proof {
                assert(model.skip(i as int)[0] == model[i as int]);
                assert(model[i as int] == self.segment_list@[i as int].deep_view());
            }
            match self.segment_list[i].expand() {
                Err(e) => {
                    return Err(e);
                },
                Ok(part) => {
                    let ghost before = toks_view(out@);
                    crate::token::extend_tokens(&mut out, &part);
                    proof {
                        assert(model.skip(i as int).drop_first() =~= model.skip(i + 1 as int));
                        match block_expand(model.skip(i + 1 as int)) {
                            Ok(r2) => {
                                assert(before + (toks_view(part@) + r2) =~= toks_view(out@) + r2);
                            },
                            Err(_) => {},
                        }
                    }
                },
            }
            i = i + 1;
        }
        proof {
            assert(model.skip(self.segment_list@.len() as int) =~= Seq::<SegV>::empty());
            match block_expand(model) {
                Ok(r2) => {
                    assert(toks_view(out@) + Seq::<Tok>::empty() =~= toks_view(out@));
                },
                Err(_) => {},
            }
        }
        Ok(out)
    }
}

impl Sequence {
    /// Parses one sequence at `pos`.
    pub fn parse(toks: &Vec<Token>, pos: usize) -> (r: Result<(Sequence, usize), EmbedError>)
        requires
            pos < toks.len(),
        ensures
            match r {
                Ok(p) => parse_sequence(toks_view(toks@), pos as int) == Ok::<_, ErrV>(
                    (p.0.deep_view(), p.1 as int),
                ) && pos < p.1 <= toks.len(),
                Err(e) => parse_sequence(toks_view(toks@), pos as int) == Err::<(SeqnV, int), _>(
                    e.deep_view(),
                ),
            },
    {
        let marked = match &toks[pos] {
            Token::Group(Delim::Bracket, inner) => inner.len() >= 2 && is_punct(&inner[0], '<')
                && is_punct(&inner[inner.len() - 1], '>'),
            _ => false,
        };
        if marked {
            match &toks[pos] {
                Token::Group(_, inner) => {
                    match Block::parse(inner) {
                        Err(e) => Err(e),
                        Ok(b) => {
                            let fin = toks.len() - pos > 1 && is_punct(&toks[pos + 1], ':')
                                && toks.len() - pos > 2 && is_ident_token(&toks[pos + 2]);
                            if fin {
                                match TransformChain::parse(toks, pos + 1) {
                                    Err(e) => Err(e),
                                    Ok((c, j)) => Ok(
                                        (Sequence::Transform { block: b, chain: Some(c) }, j),
                                    ),
                                }
                            } else {
                                Ok((Sequence::Transform { block: b, chain: None }, pos + 1))
                            }
                        },
                    }
                },
                _ => Err(EmbedError::MissingOpenMarker),
            }
        } else {
            Ok((Sequence::TokenTree(dup_token(&toks[pos])), pos + 1))
        }
    }

    /// Parses every sequence of the input, in order.
    pub fn list(toks: &Vec<Token>) -> (r: Result<Vec<Sequence>, EmbedError>)
        ensures
            match r {
                Ok(v) => parse_embed(toks_view(toks@)) == Ok::<Seq<SeqnV>, ErrV>(v.deep_view()),
                Err(e) => parse_embed(toks_view(toks@)) == Err::<Seq<SeqnV>, ErrV>(e.deep_view()),
            },
    {
        let ghost model = toks_view(toks@);
        let mut list: Vec<Sequence> = Vec::new();
        let mut pos: usize = 0;
        loop
            invariant
                pos <= toks.len(),
                model == toks_view(toks@),
                parse_sequences(model, 0) == (match parse_sequences(model, pos as int) {
                    Err(e) => Err::<Seq<SeqnV>, ErrV>(e),
                    Ok(rest) => Ok::<Seq<SeqnV>, ErrV>(list.deep_view() + rest),
                }),
            decreases toks.len() - pos,
        {
            if pos >= toks.len() {
                proof {
                    assert(parse_sequences(model, pos as int) == Ok::<Seq<SeqnV>, ErrV>(
                        Seq::empty(),
                    ));
                    assert(list.deep_view() + Seq::<SeqnV>::empty() =~= list.deep_view());
                }
                return Ok(list);
            }
            let ghost prev = list.deep_view();
            match Sequence::parse(toks, pos) {
                Err(e) => {
                    return Err(e);
                },
                Ok((q, j)) => {
                    list.push(q);
                    proof {
                        assert(list.deep_view() =~= prev + seq![q.deep_view()]);
                        match parse_sequences(model, j as int) {
                            Ok(rest) => {
                                assert(prev + (seq![q.deep_view()] + rest) =~= list.deep_view()
                                    + rest);
                            },
                            Err(_) => {},
                        }
                    }
                    pos = j;
                },
            }
        }
    }

    /// Expands this sequence.
    pub fn expand(&self) -> (r: Result<Vec<Token>, EmbedError>)
        ensures
            result_view(r) == seqn_expand(self.deep_view()),
    {
        match self {
            Sequence::TokenTree(t) => {
                let mut out: Vec<Token> = Vec::new();
                out.push(dup_token(t));
                proof {
                    assert(toks_view(out@) =~= seq![tok_view(*t)]);
                }
                Ok(out)
            },
            Sequence::Transform { block, chain } => match block.expand() {
                Err(e) => Err(e),
                Ok(out) => match chain {
                    None => Ok(out),
                    Some(c) => c.expand(out),
                },
            },
        }
    }
}

impl Embed {
    /// Parses a whole token sequence as an embed.
    pub fn parse(toks: &Vec<Token>) -> (r: Result<Embed, EmbedError>)
        ensures
            match r {
                Ok(e) => parse_embed(toks_view(toks@)) == Ok::<Seq<SeqnV>, ErrV>(e.deep_view()),
                Err(e) => parse_embed(toks_view(toks@)) == Err::<Seq<SeqnV>, ErrV>(e.deep_view()),
            },
    {
        match Sequence::list(toks) {
            Err(e) => Err(e),
            Ok(v) => Ok(Embed(v)),
        }
    }

    /// Expands the embed into a finished token sequence.
    pub fn expand(&self) -> (r: Result<Vec<Token>, EmbedError>)
        ensures
            result_view(r) == embed_expand(self.deep_view()),
    {
        let ghost model = self.deep_view();
        let mut out: Vec<Token> = Vec::new();
        let mut i: usize = 0;
        proof {
            assert(model.skip(0) =~= model);
            match embed_expand(model) {
                Ok(r2) => {
                    assert(Seq::<Tok>::empty() + r2 =~= r2);
                },
                Err(_) => {},
            }
            assert(toks_view(out@) =~= Seq::<Tok>::empty());
        }
        while i < self.0.len()
            invariant
                i <= self.0.len(),
                model == self.deep_view(),
                embed_expand(model) == (match embed_expand(model.skip(i as int)) {
                    Err(e) => Err::<Seq<Tok>, ErrV>(e),
                    Ok(r2) => Ok::<Seq<Tok>, ErrV>(toks_view(out@) + r2),
                }),
            decreases self.0.len() - i,
        {
            proof {
                assert(model.skip(i as int)[0] == model[i as int]);
                assert(model[i as int] == self.0@[i as int].deep_view());
            }
            match self.0[i].expand() {
                Err(e) => {
                    return Err(e);
                },
                Ok(part) => {
                    let ghost before = toks_view(out@);
                    crate::token::extend_tokens(&mut out, &part);
                    proof {
                        assert(model.skip(i as int).drop_first() =~= model.skip(i + 1 as int));
                        match embed_expand(model.skip(i + 1 as int)) {
                            Ok(r2) => {
                                assert(before + (toks_view(part@) + r2) =~= toks_view(out@) + r2);
                            },
                            Err(_) => {},
                        }
                    }
                },
            }
            i = i + 1;
        }
        proof {
            assert(model.skip(self.0@.len() as int) =~= Seq::<SeqnV>::empty());
            match embed_expand(model) {
                Ok(r2) => {
                    assert(toks_view(out@) + Seq::<Tok>::empty() =~= toks_view(out@));
                },
                Err(_) => {},
            }
        }
        Ok(out)
    }

    /// Recursively expands the input: every group's contents are fully
    /// expanded first, depth first, and the rebuilt top level is then
    /// parsed as an embed and expanded.
    pub fn recursively_expand(input: &Vec<Token>) -> (r: Result<Vec<Token>, EmbedError>)
        ensures
            result_view(r) == expand_all(toks_view(input@)),
        decreases seq_height(toks_view(input@)),
    {
        let ghost model = toks_view(input@);
        let mut pre: Vec<Token> = Vec::new();
        let mut i: usize = 0;
        proof {
            lemma_pre_seq_unfold(model.skip(0));
            assert(model.skip(0) =~= model);
            match pre_seq(model) {
                Ok(r2) => {
                    assert(Seq::<Tok>::empty() + r2 =~= r2);
                },
                Err(_) => {},
            }
            assert(toks_view(pre@) =~= Seq::<Tok>::empty());
        }
        while i < input.len()
            invariant
                i <= input.len(),
                model == toks_view(input@),
                pre_seq(model) == (match pre_seq(model.skip(i as int)) {
                    Err(e) => Err::<Seq<Tok>, ErrV>(e),
                    Ok(r2) => Ok::<Seq<Tok>, ErrV>(toks_view(pre@) + r2),
                }),
            decreases input.len() - i,
        {
            proof {
                lemma_pre_seq_unfold(model.skip(i as int));
                assert(model.skip(i as int)[0] == model[i as int]);
                lemma_pre_one_unfold(model[i as int]);
            }
            let ghost before = toks_view(pre@);
            match &input[i] {
                Token::Group(d, inner) => {
                    proof {
                        lemma_seq_height_bound(model, i as int);
                        assert(model[i as int] == Tok::Group(*d, toks_view(inner@)));
                        assert(tok_height(model[i as int]) == seq_height(toks_view(inner@)) + 1);
                    }
                    match Embed::recursively_expand(inner) {
                        Err(e) => {
                            return Err(e);
                        },
                        Ok(x) => {
                            pre.push(Token::Group(*d, x));
                        },
                    }
                },
                t => {
                    pre.push(dup_token(t));
                },
            }
            proof {
                assert(model.skip(i as int).drop_first() =~= model.skip(i + 1 as int));
                match pre_one(model[i as int]) {
                    Ok(f) => {
                        assert(toks_view(pre@) =~= before + f);
                        match pre_seq(model.skip(i + 1 as int)) {
                            Ok(r2) => {
                                assert(before + (f + r2) =~= toks_view(pre@) + r2);
                            },
                            Err(_) => {},
                        }
                    },
                    Err(_) => {},
                }
            }
            i = i + 1;
        }
        proof {
            lemma_pre_seq_unfold(model.skip(input@.len() as int));
            assert(model.skip(input@.len() as int) =~= Seq::<Tok>::empty());
            match pre_seq(model) {
                Ok(r2) => {
                    assert(toks_view(pre@) + Seq::<Tok>::empty() =~= toks_view(pre@));
                },
                Err(_) => {},
            }
            lemma_expand_all_unfold(model);
        }
        match Embed::parse(&pre) {
            Err(e) => Err(e),
            Ok(e) => e.expand(),
        }
    }
}

} // verus!
