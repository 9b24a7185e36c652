use vstd::prelude::*;

use crate::token::{tok_view, toks_view, Delim, Lit, LitV, Tok, Token};

verus! {

broadcast use vstd::seq::group_seq_axioms, vstd::std_specs::vec::group_vec_axioms;

/// The opening characters of a delimiter (none for the bare kind).
pub open spec fn open_text(d: Delim) -> Seq<char> {
    match d {
        Delim::Paren => seq!['('],
        Delim::Bracket => seq!['['],
        Delim::Brace => seq!['{'],
        Delim::Bare => Seq::empty(),
    }
}

/// The closing characters of a delimiter (none for the bare kind).
pub open spec fn close_text(d: Delim) -> Seq<char> {
    match d {
        Delim::Paren => seq![')'],
        Delim::Bracket => seq![']'],
        Delim::Brace => seq!['}'],
        Delim::Bare => Seq::empty(),
    }
}

/// The spelling of one character inside a quoted literal fenced by `q`.
pub open spec fn esc_char(c: char, q: char) -> Seq<char> {
    if c == q || c == '\\' {
        seq!['\\', c]
    } else if c == '\n' {
        seq!['\\', 'n']
    } else if c == '\r' {
        seq!['\\', 'r']
    } else if c == '\t' {
        seq!['\\', 't']
    } else if c == '\0' {
        seq!['\\', '0']
    } else {
        seq![c]
    }
}

/// The spelling of a whole quoted payload fenced by `q`.
pub open spec fn esc_text(s: Seq<char>, q: char) -> Seq<char>
    decreases s.len(),
{
    if s.len() == 0 {
        Seq::empty()
    } else {
        esc_char(s[0], q) + esc_text(s.drop_first(), q)
    }
}

/// A run of `n` fence marks.
pub open spec fn hashes(n: nat) -> Seq<char>
    decreases n,
{
    if n == 0 {
        Seq::empty()
    } else {
        seq!['#'] + hashes((n - 1) as nat)
    }
}

/// The spelling of a boolean literal.
pub open spec fn bool_text(b: bool) -> Seq<char> {
    if b {
        seq!['t', 'r', 'u', 'e']
    } else {
        seq!['f', 'a', 'l', 's', 'e']
    }
}

/// The canonical spelling of a literal.
pub open spec fn lit_text(l: LitV) -> Seq<char> {
    match l {
        LitV::Str(v) => seq!['"'] + esc_text(v, '"') + seq!['"'],
        LitV::RawStr(v, f) => seq!['r'] + hashes(f as nat) + seq!['"'] + v + seq!['"'] + hashes(
            f as nat,
        ),
        LitV::Char(c) => seq!['\''] + esc_char(c, '\'') + seq!['\''],
        LitV::Int(v) => v,
        LitV::Float(v) => v,
        LitV::Bool(b) => bool_text(b),
        LitV::Byte(v) => v,
        LitV::ByteStr(v) => v,
        LitV::Verbatim(v) => v,
    }
}

/// The canonical spelling of one token.
pub open spec fn tok_text(t: Tok) -> Seq<char>
    decreases t, 1int,
    via tok_text_dec
{
    match t {
        Tok::Ident(v) => v,
        Tok::Punct(c) => seq![c],
        Tok::Lit(l) => lit_text(l),
        Tok::Group(d, ts) => open_text(d) + toks_text(ts) + close_text(d),
    }
}

/// The canonical spelling of a token sequence: the tokens' spellings
/// joined by single spaces.
pub open spec fn toks_text(s: Seq<Tok>) -> Seq<char>
    decreases s, 1int,
{
    if s.len() == 0 {
        Seq::empty()
    } else {
        tok_text(s.first()) + rest_text(s.drop_first())
    }
}

/// The spelling of the tokens after the first: each preceded by a space.
pub open spec fn rest_text(s: Seq<Tok>) -> Seq<char>
    decreases s, 0int,
{
    if s.len() == 0 {
        Seq::empty()
    } else {
        seq![' '] + tok_text(s.first()) + rest_text(s.drop_first())
    }
}

#[via_fn]
proof fn tok_text_dec(t: Tok) {
    if let Tok::Group(d, ts) = t {
        assert(decreases_to!(t => ts));
    }
}

/// Whether the `n` characters of `s` starting at `i` are all fence marks.
pub open spec fn is_hash_run(s: Seq<char>, i: int, n: nat) -> bool {
    forall|j: int| i <= j < i + n ==> s[j] == '#'
}

/// Whether `s` contains `n` consecutive fence marks anywhere.
pub open spec fn has_hash_run(s: Seq<char>, n: nat) -> bool {
    exists|i: int| 0 <= i && i + n <= s.len() && is_hash_run(s, i, n)
}

/// The smallest fence length not below `n` that does not occur as a run
/// of fence marks inside `s`.
pub open spec fn fence_from(s: Seq<char>, n: nat) -> nat
    decreases s.len() + 1 - n,
    when n <= s.len() + 1
{
    if has_hash_run(s, n) {
        fence_from(s, n + 1)
    } else {
        n
    }
}

/// The fence length chosen for a raw string holding `s`: the smallest
/// positive length that does not occur as a run of fence marks in `s`.
pub open spec fn fence_of(s: Seq<char>) -> nat {
    fence_from(s, 1)
}

/// The decimal spelling of a number.
pub open spec fn dec_digits(n: nat) -> Seq<char>
    decreases n,
{
    if n < 10 {
        seq![digit_char(n)]
    } else {
        dec_digits(n / 10) + seq![digit_char(n % 10)]
    }
}

/// The character for one decimal digit.
pub open spec fn digit_char(d: nat) -> char {
    if d == 0 {
        '0'
    } else if d == 1 {
        '1'
    } else if d == 2 {
        '2'
    } else if d == 3 {
        '3'
    } else if d == 4 {
        '4'
    } else if d == 5 {
        '5'
    } else if d == 6 {
        '6'
    } else if d == 7 {
        '7'
    } else if d == 8 {
        '8'
    } else {
        '9'
    }
}

/// The decimal spelling of a count, as characters.
pub fn dec_chars(n: usize) -> (r: Vec<char>)
    ensures
        r@ == dec_digits(n as nat),
    decreases n,
{
    let d: usize = n % 10;
    let c: char = if d == 0 {
        '0'
    } else if d == 1 {
        '1'
    } else if d == 2 {
        '2'
    } else if d == 3 {
        '3'
    } else if d == 4 {
        '4'
    } else if d == 5 {
        '5'
    } else if d == 6 {
        '6'
    } else if d == 7 {
        '7'
    } else if d == 8 {
        '8'
    } else {
        '9'
    };
    if n < 10 {
        let mut r: Vec<char> = Vec::new();
        r.push(c);
        assert(r@ =~= dec_digits(n as nat));
        r
    } else {
        let mut r = dec_chars(n / 10);
        r.push(c);
        assert(r@ =~= dec_digits(n as nat));
        r
    }
}

/// Appends the characters of `v` to `out`.
pub fn push_all(out: &mut Vec<char>, v: &Vec<char>)
    ensures
        final(out)@ == old(out)@ + v@,
{
    let mut i: usize = 0;
    while i < v.len()
        invariant
            i <= v.len(),
            out@ == old(out)@ + v@.subrange(0, i as int),
        decreases v.len() - i,
    {
        out.push(v[i]);
        assert(out@ =~= old(out)@ + v@.subrange(0, i + 1 as int));
        i = i + 1;
    }
    assert(out@ =~= old(out)@ + v@);
}

/// Appends the quoted spelling of `v`, fenced by `q`, to `out`.
fn push_escaped(out: &mut Vec<char>, v: &Vec<char>, q: char)
    ensures
        final(out)@ == old(out)@ + esc_text(v@, q),
{
    let mut i: usize = 0;
    while i < v.len()
        invariant
            i <= v.len(),
            out@ == old(out)@ + esc_text(v@.subrange(0, i as int), q),
        decreases v.len() - i,
    {
        let c = v[i];
        if c == q || c == '\\' {
            out.push('\\');
            out.push(c);
        } else if c == '\n' {
            out.push('\\');
            out.push('n');
        } else if c == '\r' {
            out.push('\\');
            out.push('r');
        } else if c == '\t' {
            out.push('\\');
            out.push('t');
        } else if c == '\0' {
            out.push('\\');
            out.push('0');
        } else {
            out.push(c);
        }
        proof {
            lemma_esc_text_snoc(v@.subrange(0, i + 1 as int), q);
            assert(v@.subrange(0, i + 1 as int).drop_last() =~= v@.subrange(0, i as int));
            assert(out@ =~= old(out)@ + esc_text(v@.subrange(0, i + 1 as int), q));
        }
        i = i + 1;
    }
    assert(v@.subrange(0, v@.len() as int) =~= v@);
}

/// Splitting the last character off an escaped spelling.
proof fn lemma_esc_text_snoc(s: Seq<char>, q: char)
    requires
        s.len() > 0,
    ensures
        esc_text(s, q) == esc_text(s.drop_last(), q) + esc_char(s.last(), q),
    decreases s.len(),
{
    if s.len() == 1 {
        assert(esc_text(s.drop_first(), q) == Seq::<char>::empty());
        assert(esc_text(s.drop_last(), q) == Seq::<char>::empty());
        assert(esc_text(s, q) =~= esc_text(s.drop_last(), q) + esc_char(s.last(), q));
    } else {
        lemma_esc_text_snoc(s.drop_first(), q);
        assert(s.drop_first().drop_last() =~= s.drop_last().drop_first());
        assert(s.drop_first().last() == s.last());
        assert(s.drop_last().len() > 0);
        assert(s.drop_last()[0] == s[0]);
        assert(esc_text(s.drop_last(), q) == esc_char(s[0], q) + esc_text(
            s.drop_last().drop_first(),
            q,
        ));
        assert(esc_text(s, q) == esc_char(s[0], q) + esc_text(s.drop_first(), q));
        assert(esc_text(s.drop_first(), q) == esc_text(s.drop_last().drop_first(), q) + esc_char(
            s.last(),
            q,
        ));
        assert(esc_text(s, q) =~= esc_text(s.drop_last(), q) + esc_char(s.last(), q));
    }
}

/// Appends `n` fence marks to `out`.
fn push_hashes(out: &mut Vec<char>, n: usize)
    ensures
        final(out)@ == old(out)@ + hashes(n as nat),
{
    let mut i: usize = 0;
    while i < n
        invariant
            i <= n,
            out@ == old(out)@ + hashes(i as nat),
        decreases n - i,
    {
        out.push('#');
        proof {
            lemma_hashes_snoc((i + 1) as nat);
            assert(out@ =~= old(out)@ + hashes((i + 1) as nat));
        }
        i = i + 1;
    }
}

/// A run of fence marks grows at either end alike.
proof fn lemma_hashes_snoc(n: nat)
    requires
        n > 0,
    ensures
        hashes(n) == hashes((n - 1) as nat) + seq!['#'],
    decreases n,
{
    if n == 1 {
        assert(hashes(1) =~= hashes(0) + seq!['#']);
    } else {
        lemma_hashes_snoc((n - 1) as nat);
        assert(hashes(n) =~= hashes((n - 1) as nat) + seq!['#']);
    }
}

/// Appends the spelling of a literal to `out`.
fn render_lit(out: &mut Vec<char>, l: &Lit)
    ensures
        final(out)@ == old(out)@ + lit_text(l.deep_view()),
{
    match l {
        Lit::Str(v) => {
            out.push('"');
            push_escaped(out, v, '"');
            out.push('"');
            assert(out@ =~= old(out)@ + lit_text(l.deep_view()));
        },
        Lit::RawStr(v, f) => {
            out.push('r');
            push_hashes(out, *f);
            out.push('"');
            push_all(out, v);
            out.push('"');
            push_hashes(out, *f);
            assert(out@ =~= old(out)@ + lit_text(l.deep_view()));
        },
        Lit::Char(c) => {
            out.push('\'');
            let c = *c;
            if c == '\'' || c == '\\' {
                out.push('\\');
                out.push(c);
            } else if c == '\n' {
                out.push('\\');
                out.push('n');
            } else if c == '\r' {
                out.push('\\');
                out.push('r');
            } else if c == '\t' {
                out.push('\\');
                out.push('t');
            } else if c == '\0' {
                out.push('\\');
                out.push('0');
            } else {
                out.push(c);
            }
            out.push('\'');
            assert(out@ =~= old(out)@ + lit_text(l.deep_view()));
        },
        Lit::Int(v) => push_all(out, v),
        Lit::Float(v) => push_all(out, v),
        Lit::Bool(b) => {
            if *b {
                out.push('t');
                out.push('r');
                out.push('u');
                out.push('e');
            } else {
                out.push('f');
                out.push('a');
                out.push('l');
                out.push('s');
                out.push('e');
            }
            assert(out@ =~= old(out)@ + lit_text(l.deep_view()));
        },
        Lit::Byte(v) => push_all(out, v),
        Lit::ByteStr(v) => push_all(out, v),
        Lit::Verbatim(v) => push_all(out, v),
    }
}

/// Appends the spelling of one token to `out`.
pub fn render_token(out: &mut Vec<char>, t: &Token)
    ensures
        final(out)@ == old(out)@ + tok_text(tok_view(*t)),
    decreases *t,
{
    match t {
        Token::Ident(v) => push_all(out, v),
        Token::Punct(c) => out.push(*c),
        Token::Lit(l) => render_lit(out, l),
        Token::Group(d, ts) => {
            proof {
                assert(decreases_to!(*t => *ts));
                assert(decreases_to!(*ts => ts@));
            }
            match d {
                Delim::Paren => out.push('('),
                Delim::Bracket => out.push('['),
                Delim::Brace => out.push('{'),
                Delim::Bare => (),
            }
            let ghost mid = out@;
            let mut i: usize = 0;
            while i < ts.len()
                invariant
                    i <= ts.len(),
                    decreases_to!(*t => ts@),
                    i == 0 ==> out@ == mid,
                    i > 0 ==> out@ == mid + toks_text(toks_view(ts@).take(i as int)),
                decreases ts.len() - i,
            {
                proof {
                    assert(decreases_to!(ts@ => ts@[i as int]));
                }
                if i > 0 {
                    out.push(' ');
                }
                render_token(out, &ts[i]);
                proof {
                    lemma_toks_text_snoc(toks_view(ts@).take(i + 1 as int));
                    assert(toks_view(ts@).take(i + 1 as int).drop_last() =~= toks_view(ts@).take(
                        i as int,
                    ));
                    assert(toks_view(ts@).take(i + 1 as int).last() == tok_view(ts@[i as int]));
                }
                i = i + 1;
            }
            match d {
                Delim::Paren => out.push(')'),
                Delim::Bracket => out.push(']'),
                Delim::Brace => out.push('}'),
                Delim::Bare => (),
            }
            proof {
                if ts@.len() > 0 {
                    assert(toks_view(ts@).take(ts@.len() as int) =~= toks_view(ts@));
                }
                assert(out@ =~= old(out)@ + tok_text(tok_view(*t)));
            }
        },
    }
}

/// Splitting the last token off a joined spelling.
proof fn lemma_toks_text_snoc(s: Seq<Tok>)
    requires
        s.len() > 0,
    ensures
        s.len() == 1 ==> toks_text(s) == tok_text(s[0]),
        s.len() > 1 ==> toks_text(s) == toks_text(s.drop_last()) + seq![' '] + tok_text(s.last()),
    decreases s.len(),
{
    if s.len() == 1 {
        assert(rest_text(s.drop_first()) == Seq::<char>::empty());
        assert(toks_text(s) =~= tok_text(s[0]));
    } else {
        lemma_rest_text_snoc(s.drop_first());
        assert(s.drop_first().drop_last() =~= s.drop_last().drop_first());
        if s.len() == 2 {
            assert(toks_text(s.drop_last()) == tok_text(s[0]) + rest_text(s.drop_last().drop_first()));
            assert(rest_text(s.drop_last().drop_first()) =~= Seq::<char>::empty());
            assert(toks_text(s) =~= toks_text(s.drop_last()) + seq![' '] + tok_text(s.last()));
        } else {
            assert(toks_text(s) =~= toks_text(s.drop_last()) + seq![' '] + tok_text(s.last()));
        }
    }
}

/// Splitting the last token off the spelling of the tokens after the first.
proof fn lemma_rest_text_snoc(s: Seq<Tok>)
    requires
        s.len() > 0,
    ensures
        rest_text(s) == rest_text(s.drop_last()) + seq![' '] + tok_text(s.last()),
    decreases s.len(),
{
    if s.len() == 1 {
        assert(rest_text(s.drop_first()) == Seq::<char>::empty());
        assert(rest_text(s.drop_last()) == Seq::<char>::empty());
        assert(rest_text(s) =~= rest_text(s.drop_last()) + seq![' '] + tok_text(s.last()));
    } else {
        lemma_rest_text_snoc(s.drop_first());
        assert(s.drop_first().drop_last() =~= s.drop_last().drop_first());
        assert(s.drop_first().last() == s.last());
        assert(s.drop_last().len() > 0);
        assert(s.drop_last().first() == s.first());
        assert(rest_text(s.drop_last()) == seq![' '] + tok_text(s.first()) + rest_text(
            s.drop_last().drop_first(),
        ));
        assert(rest_text(s) =~= rest_text(s.drop_last()) + seq![' '] + tok_text(s.last()));
    }
}

/// The canonical spelling of a whole token sequence.
pub fn render_tokens(ts: &Vec<Token>) -> (r: Vec<char>)
    ensures
        r@ == toks_text(toks_view(ts@)),
{
    let mut out: Vec<char> = Vec::new();
    let mut i: usize = 0;
    while i < ts.len()
        invariant
            i <= ts.len(),
            i == 0 ==> out@ == Seq::<char>::empty(),
            i > 0 ==> out@ == toks_text(toks_view(ts@).take(i as int)),
        decreases ts.len() - i,
    {
        if i > 0 {
            out.push(' ');
        }
        render_token(&mut out, &ts[i]);
        proof {
            lemma_toks_text_snoc(toks_view(ts@).take(i + 1 as int));
            assert(toks_view(ts@).take(i + 1 as int).drop_last() =~= toks_view(ts@).take(i as int));
            assert(toks_view(ts@).take(i + 1 as int).last() == tok_view(ts@[i as int]));
        }
        i = i + 1;
    }
    proof {
        if ts@.len() > 0 {
            assert(toks_view(ts@).take(ts@.len() as int) =~= toks_view(ts@));
        }
    }
    out
}

/// Whether the `n` characters starting at `i` are all fence marks.
fn run_at(s: &Vec<char>, i: usize, n: usize) -> (r: bool)
    requires
        i + n <= s@.len(),
    ensures
        r == is_hash_run(s@, i as int, n as nat),
{
    let mut j: usize = 0;
    while j < n
        invariant
            j <= n,
            i + n <= s.len(),
            forall|k: int| i <= k < i + j ==> s@[k] == '#',
        decreases n - j,
    {
        if s[i + j] != '#' {
            return false;
        }
        j = j + 1;
    }
    true
}

/// Whether `s` contains `n` consecutive fence marks anywhere.
fn has_run(s: &Vec<char>, n: usize) -> (r: bool)
    requires
        1 <= n,
    ensures
        r == has_hash_run(s@, n as nat),
{
    if n > s.len() {
        assert(!has_hash_run(s@, n as nat));
        return false;
    }
    let end = s.len() - n;
    let mut i: usize = 0;
    while i <= end
        invariant
            1 <= n <= s.len(),
            end == s.len() - n,
            i <= end + 1,
            forall|k: int| 0 <= k < i ==> !is_hash_run(s@, k, n as nat),
        decreases end + 1 - i,
    {
        if run_at(s, i, n) {
            assert(has_hash_run(s@, n as nat));
            return true;
        }
        i = i + 1;
    }
    false
}

/// A fence run longer than the text cannot occur.
proof fn lemma_run_bound(s: Seq<char>, n: nat)
    requires
        has_hash_run(s, n),
    ensures
        n <= s.len(),
{
}

/// The fence length chosen for a raw string holding `s`.
///
/// The payload is required to leave room for one more fence mark than
/// the machine can address, which every realizable vector does.
pub fn fence_len(s: &Vec<char>) -> (r: usize)
    requires
        s@.len() < usize::MAX,
    ensures
        r as nat == fence_of(s@),
{
    let mut n: usize = 1;
    while has_run(s, n)
        invariant
            1 <= n,
            n as nat <= s@.len() + 1,
            fence_of(s@) == fence_from(s@, n as nat),
            s@.len() < usize::MAX,
        decreases s@.len() + 1 - n,
    {
        proof {
            lemma_run_bound(s@, n as nat);
        }
        n = n + 1;
    }
    n
}

/// Relies on str::chars: it yields exactly the characters of the slice,
/// in order.
#[verifier::external_body]
pub fn str_chars(s: &str) -> (r: Vec<char>)
    ensures
        r@ == s@,
{
    s.chars().collect()
}

/// Relies on String's FromIterator impl: collecting characters builds
/// the string of exactly those characters, in order.
#[verifier::external_body]
pub fn chars_string(v: &Vec<char>) -> (r: String)
    ensures
        r@ == v@,
{
    v.iter().collect()
}

} // verus!
