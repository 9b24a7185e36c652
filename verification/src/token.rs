use vstd::prelude::*;

verus! {

broadcast use vstd::seq::group_seq_axioms, vstd::std_specs::vec::group_vec_axioms;

/// The delimiter kind of a token group.
///
/// `Bare` is the invisible delimiter: a group whose rendering shows no
/// bracket characters at all.
#[derive(Clone, Copy, Debug, PartialEq, Eq, Structural)]
pub enum Delim {
    Paren,
    Bracket,
    Brace,
    Bare,
}

/// A leaf literal token.
///
/// Textual payloads are carried as character vectors. Numeric literals
/// carry their decimal spelling; `Byte`, `ByteStr` and `Verbatim` carry
/// their full source spelling.
#[derive(Clone, Debug, PartialEq, Eq)]
pub enum Lit {
    /// A cooked string literal, holding its unquoted, unescaped value.
    Str(Vec<char>),
    /// A raw string literal: its value plus the fence length (the number
    /// of `#` marks on each side of the quotes).
    RawStr(Vec<char>, usize),
    /// A character literal, holding its value.
    Char(char),
    /// An integer literal, holding its decimal digit spelling.
    Int(Vec<char>),
    /// A floating-point literal, holding its decimal spelling.
    Float(Vec<char>),
    /// A boolean literal.
    Bool(bool),
    /// A byte literal, holding its source spelling.
    Byte(Vec<char>),
    /// A byte-string literal, holding its source spelling.
    ByteStr(Vec<char>),
    /// An opaque literal, holding its source spelling.
    Verbatim(Vec<char>),
}

/// A token: a leaf (identifier, punctuation character or literal) or a
/// delimited group of tokens. Groups nest arbitrarily.
#[derive(Debug, PartialEq, Eq)]
pub enum Token {
    Ident(Vec<char>),
    Punct(char),
    Lit(Lit),
    Group(Delim, Vec<Token>),
}

/// The mathematical model of a literal.
#[verifier::ext_equal]
pub enum LitV {
    Str(Seq<char>),
    RawStr(Seq<char>, usize),
    Char(char),
    Int(Seq<char>),
    Float(Seq<char>),
    Bool(bool),
    Byte(Seq<char>),
    ByteStr(Seq<char>),
    Verbatim(Seq<char>),
}

/// The mathematical model of a token.
#[verifier::ext_equal]
pub enum Tok {
    Ident(Seq<char>),
    Punct(char),
    Lit(LitV),
    Group(Delim, Seq<Tok>),
}

impl DeepView for Lit {
    type V = LitV;

    open spec fn deep_view(&self) -> LitV {
        match self {
            Lit::Str(v) => LitV::Str(v@),
            Lit::RawStr(v, f) => LitV::RawStr(v@, *f),
            Lit::Char(c) => LitV::Char(*c),
            Lit::Int(v) => LitV::Int(v@),
            Lit::Float(v) => LitV::Float(v@),
            Lit::Bool(b) => LitV::Bool(*b),
            Lit::Byte(v) => LitV::Byte(v@),
            Lit::ByteStr(v) => LitV::ByteStr(v@),
            Lit::Verbatim(v) => LitV::Verbatim(v@),
        }
    }
}

/// The model of a single token.
pub open spec fn tok_view(t: Token) -> Tok
    decreases t, 1int,
    via tok_view_dec
{
    match t {
        Token::Ident(v) => Tok::Ident(v@),
        Token::Punct(c) => Tok::Punct(c),
        Token::Lit(l) => Tok::Lit(l.deep_view()),
        Token::Group(d, ts) => Tok::Group(d, toks_view(ts@)),
    }
}

/// The model of a sequence of tokens.
pub open spec fn toks_view(s: Seq<Token>) -> Seq<Tok>
    decreases s, 0int,
    via toks_view_dec
{
    Seq::new(
        s.len(),
        |i: int| if 0 <= i < s.len() { tok_view(s[i]) } else { Tok::Punct(' ') },
    )
}

#[via_fn]
proof fn tok_view_dec(t: Token) {
    if let Token::Group(d, ts) = t {
        assert(decreases_to!(t => ts));
        assert(decreases_to!(ts => ts@));
    }
}

#[via_fn]
proof fn toks_view_dec(s: Seq<Token>) {
    assert forall|i: int| 0 <= i < s.len() implies #[trigger] (decreases_to!(s => s[i])) by {
        vstd::seq::axiom_seq_index_decreases(s, i);
    };
}

impl DeepView for Token {
    type V = Tok;

    open spec fn deep_view(&self) -> Tok {
        tok_view(*self)
    }
}

/// The nesting height of a token model value: leaves have height zero,
/// a group is one higher than its tallest child.
pub open spec fn tok_height(t: Tok) -> nat
    decreases t,
{
    match t {
        Tok::Group(_, ts) => seq_height(ts) + 1,
        _ => 0,
    }
}

/// The tallest height among the tokens of a sequence.
pub open spec fn seq_height(s: Seq<Tok>) -> nat
    decreases s,
{
    if s.len() == 0 {
        0
    } else if tok_height(s.first()) >= seq_height(s.drop_first()) {
        tok_height(s.first())
    } else {
        seq_height(s.drop_first())
    }
}

/// Every token of a sequence is bounded by the sequence's height.
pub proof fn lemma_seq_height_bound(s: Seq<Tok>, i: int)
    requires
        0 <= i < s.len(),
    ensures
        tok_height(s[i]) <= seq_height(s),
    decreases s.len(),
{
    if i == 0 {
    } else {
        lemma_seq_height_bound(s.drop_first(), i - 1);
    }
}

/// An exact copy of a character vector.
pub fn dup_chars(v: &Vec<char>) -> (r: Vec<char>)
    ensures
        r@ == v@,
{
    let mut r: Vec<char> = Vec::new();
    let mut i: usize = 0;
    while i < v.len()
        invariant
            i <= v.len(),
            r@ == v@.subrange(0, i as int),
        decreases v.len() - i,
    {
        r.push(v[i]);
        i = i + 1;
    }
    assert(v@.subrange(0, v@.len() as int) =~= v@);
    r
}

/// An exact copy of a literal.
pub fn dup_lit(l: &Lit) -> (r: Lit)
    ensures
        r.deep_view() == l.deep_view(),
{
    match l {
        Lit::Str(v) => Lit::Str(dup_chars(v)),
        Lit::RawStr(v, f) => Lit::RawStr(dup_chars(v), *f),
        Lit::Char(c) => Lit::Char(*c),
        Lit::Int(v) => Lit::Int(dup_chars(v)),
        Lit::Float(v) => Lit::Float(dup_chars(v)),
        Lit::Bool(b) => Lit::Bool(*b),
        Lit::Byte(v) => Lit::Byte(dup_chars(v)),
        Lit::ByteStr(v) => Lit::ByteStr(dup_chars(v)),
        Lit::Verbatim(v) => Lit::Verbatim(dup_chars(v)),
    }
}

/// An exact copy of a token.
pub fn dup_token(t: &Token) -> (r: Token)
    ensures
        tok_view(r) == tok_view(*t),
    decreases *t,
{
    match t {
        Token::Ident(v) => Token::Ident(dup_chars(v)),
        Token::Punct(c) => Token::Punct(*c),
        Token::Lit(l) => Token::Lit(dup_lit(l)),
        Token::Group(d, ts) => {
            proof {
                assert(decreases_to!(*t => *ts));
                assert(decreases_to!(*ts => ts@));
            }
            let mut inner: Vec<Token> = Vec::new();
            let mut i: usize = 0;
            while i < ts.len()
                invariant
                    i <= ts.len(),
                    inner@.len() == i,
                    decreases_to!(*t => ts@),
                    forall|j: int| 0 <= j < i ==> tok_view(inner@[j]) == tok_view(ts@[j]),
                decreases ts.len() - i,
            {
                proof {
                    assert(decreases_to!(ts@ => ts@[i as int]));
                }
                inner.push(dup_token(&ts[i]));
                i = i + 1;
            }
            assert(toks_view(inner@) =~= toks_view(ts@));
            Token::Group(*d, inner)
        },
    }
}

/// An exact copy of a token sequence.
pub fn dup_tokens(ts: &Vec<Token>) -> (r: Vec<Token>)
    ensures
        toks_view(r@) == toks_view(ts@),
{
    let mut r: Vec<Token> = Vec::new();
    let mut i: usize = 0;
    while i < ts.len()
        invariant
            i <= ts.len(),
            r@.len() == i,
            forall|j: int| 0 <= j < i ==> tok_view(r@[j]) == tok_view(ts@[j]),
        decreases ts.len() - i,
    {
        r.push(dup_token(&ts[i]));
        i = i + 1;
    }
    assert(toks_view(r@) =~= toks_view(ts@));
    r
}

/// Character-for-character equality of two character vectors.
pub fn chars_eq(a: &Vec<char>, b: &Vec<char>) -> (r: bool)
    ensures
        r == (a@ == b@),
{
    if a.len() != b.len() {
        assert(a@ != b@);
        return false;
    }
    let mut i: usize = 0;
    while i < a.len()
        invariant
            i <= a.len(),
            a@.len() == b@.len(),
            forall|j: int| 0 <= j < i ==> a@[j] == b@[j],
        decreases a.len() - i,
    {
        if a[i] != b[i] {
            return false;
        }
        i = i + 1;
    }
    assert(a@ =~= b@);
    true
}

/// Appends an exact copy of every token of `v` to `out`.
pub fn extend_tokens(out: &mut Vec<Token>, v: &Vec<Token>)
    ensures
        toks_view(final(out)@) == toks_view(old(out)@) + toks_view(v@),
{
    let ghost base = out@.len();
    let mut i: usize = 0;
    while i < v.len()
        invariant
            i <= v.len(),
            out@.len() == base + i,
            forall|j: int| 0 <= j < base ==> tok_view(out@[j]) == tok_view(old(out)@[j]),
            forall|j: int| 0 <= j < i ==> tok_view(out@[base + j]) == tok_view(v@[j]),
        decreases v.len() - i,
    {
        out.push(dup_token(&v[i]));
        i = i + 1;
    }
    assert(toks_view(out@) =~= toks_view(old(out)@) + toks_view(v@));
}

/// The model of an identifier token.
pub broadcast proof fn lemma_tok_view_ident(v: Vec<char>)
    ensures
        #[trigger] tok_view(Token::Ident(v)) == Tok::Ident(v@),
{
}

/// The model of a punctuation token.
pub broadcast proof fn lemma_tok_view_punct(c: char)
    ensures
        #[trigger] tok_view(Token::Punct(c)) == Tok::Punct(c),
{
}

/// The model of a literal token.
pub broadcast proof fn lemma_tok_view_lit(l: Lit)
    ensures
        #[trigger] tok_view(Token::Lit(l)) == Tok::Lit(l.deep_view()),
{
}

/// The model of a group token.
pub broadcast proof fn lemma_tok_view_group(d: Delim, ts: Vec<Token>)
    ensures
        #[trigger] tok_view(Token::Group(d, ts)) == Tok::Group(d, toks_view(ts@)),
{
}

/// The model of a token sequence has the sequence's length.
pub broadcast proof fn lemma_toks_view_len(s: Seq<Token>)
    ensures
        (#[trigger] toks_view(s)).len() == s.len(),
{
}

/// The model of a token sequence, element by element.
pub broadcast proof fn lemma_toks_view_index(s: Seq<Token>, i: int)
    requires
        0 <= i < s.len(),
    ensures
        #[trigger] toks_view(s)[i] == tok_view(s[i]),
{
}

/// The models of the literal tokens, one lemma each.
pub broadcast proof fn lemma_view_lit_str(v: Vec<char>)
    ensures
        #[trigger] tok_view(Token::Lit(Lit::Str(v))) == Tok::Lit(LitV::Str(v@)),
{
}

pub broadcast proof fn lemma_view_lit_rawstr(v: Vec<char>, f: usize)
    ensures
        #[trigger] tok_view(Token::Lit(Lit::RawStr(v, f))) == Tok::Lit(LitV::RawStr(v@, f)),
{
}

pub broadcast proof fn lemma_view_lit_char(c: char)
    ensures
        #[trigger] tok_view(Token::Lit(Lit::Char(c))) == Tok::Lit(LitV::Char(c)),
{
}

pub broadcast proof fn lemma_view_lit_int(v: Vec<char>)
    ensures
        #[trigger] tok_view(Token::Lit(Lit::Int(v))) == Tok::Lit(LitV::Int(v@)),
{
}

pub broadcast proof fn lemma_view_lit_float(v: Vec<char>)
    ensures
        #[trigger] tok_view(Token::Lit(Lit::Float(v))) == Tok::Lit(LitV::Float(v@)),
{
}

pub broadcast proof fn lemma_view_lit_bool(b: bool)
    ensures
        #[trigger] tok_view(Token::Lit(Lit::Bool(b))) == Tok::Lit(LitV::Bool(b)),
{
}

pub broadcast proof fn lemma_view_lit_byte(v: Vec<char>)
    ensures
        #[trigger] tok_view(Token::Lit(Lit::Byte(v))) == Tok::Lit(LitV::Byte(v@)),
{
}

pub broadcast proof fn lemma_view_lit_bytestr(v: Vec<char>)
    ensures
        #[trigger] tok_view(Token::Lit(Lit::ByteStr(v))) == Tok::Lit(LitV::ByteStr(v@)),
{
}

pub broadcast proof fn lemma_view_lit_verbatim(v: Vec<char>)
    ensures
        #[trigger] tok_view(Token::Lit(Lit::Verbatim(v))) == Tok::Lit(LitV::Verbatim(v@)),
{
}

/// The view lemmas as one group.
pub broadcast group group_token_views {
    lemma_tok_view_ident,
    lemma_tok_view_punct,
    lemma_tok_view_lit,
    lemma_tok_view_group,
    lemma_toks_view_len,
    lemma_toks_view_index,
    lemma_view_lit_str,
    lemma_view_lit_rawstr,
    lemma_view_lit_char,
    lemma_view_lit_int,
    lemma_view_lit_float,
    lemma_view_lit_bool,
    lemma_view_lit_byte,
    lemma_view_lit_bytestr,
    lemma_view_lit_verbatim,
}

} // verus!
