use vstd::prelude::*;

use crate::token::{tok_view, toks_view, Delim, Lit, LitV, Tok, Token};

verus! {

broadcast use vstd::seq::group_seq_axioms, vstd::std_specs::vec::group_vec_axioms, crate::token::group_token_views;

/// Whitespace between tokens.
pub open spec fn is_ws(c: char) -> bool {
    c == ' ' || c == '\n' || c == '\t' || c == '\r'
}

/// A decimal digit.
pub open spec fn is_digit(c: char) -> bool {
    48 <= c as u32 <= 57
}

/// A character that may open an identifier.
pub open spec fn is_ident_start(c: char) -> bool {
    (97 <= c as u32 <= 122) || (65 <= c as u32 <= 90) || c == '_'
}

/// A character that may continue an identifier.
pub open spec fn is_ident_cont(c: char) -> bool {
    is_ident_start(c) || is_digit(c)
}

/// The first position at or after `i` holding no whitespace.
pub open spec fn skip_ws(s: Seq<char>, i: int) -> int
    decreases s.len() - i,
    when 0 <= i <= s.len()
{
    if i < s.len() && is_ws(s[i]) {
        skip_ws(s, i + 1)
    } else {
        i
    }
}

/// Skipping whitespace stays inside the text.
pub proof fn lemma_skip_ws(s: Seq<char>, i: int)
    requires
        0 <= i <= s.len(),
    ensures
        i <= skip_ws(s, i) <= s.len(),
    decreases s.len() - i,
{
    if i < s.len() && is_ws(s[i]) {
        lemma_skip_ws(s, i + 1);
    }
}

/// The character denoted by one escape code, if the code is recognized.
pub open spec fn esc_value(c: char) -> Option<char> {
    if c == '"' {
        Some('"')
    } else if c == '\'' {
        Some('\'')
    } else if c == '\\' {
        Some('\\')
    } else if c == 'n' {
        Some('\n')
    } else if c == 'r' {
        Some('\r')
    } else if c == 't' {
        Some('\t')
    } else if c == '0' {
        Some('\0')
    } else {
        None
    }
}

/// Reading a cooked string payload from `i` up to its closing quote:
/// the unescaped value and the position after the quote.
pub open spec fn scan_str(s: Seq<char>, i: int) -> Option<(Seq<char>, int)>
    decreases s.len() - i,
    when 0 <= i <= s.len()
{
    if i >= s.len() {
        None
    } else if s[i] == '"' {
        Some((Seq::empty(), i + 1))
    } else if s[i] == '\\' {
        if i + 1 >= s.len() {
            None
        } else {
            match esc_value(s[i + 1]) {
                None => None,
                Some(c) => match scan_str(s, i + 2) {
                    None => None,
                    Some((v, e)) => Some((seq![c] + v, e)),
                },
            }
        }
    } else {
        match scan_str(s, i + 1) {
            None => None,
            Some((v, e)) => Some((seq![s[i]] + v, e)),
        }
    }
}

/// The number of consecutive fence marks at `i`.
pub open spec fn count_hashes(s: Seq<char>, i: int) -> int
    decreases s.len() - i,
    when 0 <= i <= s.len()
{
    if i < s.len() && s[i] == '#' {
        1 + count_hashes(s, i + 1)
    } else {
        0
    }
}

/// Whether a raw string fenced by `h` marks terminates at `i`.
pub open spec fn raw_end_at(s: Seq<char>, i: int, h: int) -> bool {
    i < s.len() && s[i] == '"' && i + 1 + h <= s.len() && (forall|j: int|
        i + 1 <= j < i + 1 + h ==> s[j] == '#')
}

/// Reading a raw string payload from `i` up to the first closing quote
/// followed by `h` fence marks: the value and the position after them.
pub open spec fn scan_raw(s: Seq<char>, i: int, h: int) -> Option<(Seq<char>, int)>
    decreases s.len() - i,
    when 0 <= i <= s.len() && 0 <= h
{
    if i >= s.len() {
        None
    } else if raw_end_at(s, i, h) {
        Some((Seq::empty(), i + 1 + h))
    } else {
        match scan_raw(s, i + 1, h) {
            None => None,
            Some((v, e)) => Some((seq![s[i]] + v, e)),
        }
    }
}

/// Reading the identifier characters from `i`: the name and the
/// position after it.
pub open spec fn scan_ident(s: Seq<char>, i: int) -> (Seq<char>, int)
    decreases s.len() - i,
    when 0 <= i <= s.len()
{
    if i < s.len() && is_ident_cont(s[i]) {
        let r = scan_ident(s, i + 1);
        (seq![s[i]] + r.0, r.1)
    } else {
        (Seq::empty(), i)
    }
}

/// Reading an identifier stays inside the text.
pub proof fn lemma_scan_ident(s: Seq<char>, i: int)
    requires
        0 <= i <= s.len(),
    ensures
        i <= scan_ident(s, i).1 <= s.len(),
    decreases s.len() - i,
{
    if i < s.len() && is_ident_cont(s[i]) {
        lemma_scan_ident(s, i + 1);
    }
}

/// Reading the digits from `i`: the digit text and the position after.
pub open spec fn scan_digits(s: Seq<char>, i: int) -> (Seq<char>, int)
    decreases s.len() - i,
    when 0 <= i <= s.len()
{
    if i < s.len() && is_digit(s[i]) {
        let r = scan_digits(s, i + 1);
        (seq![s[i]] + r.0, r.1)
    } else {
        (Seq::empty(), i)
    }
}

/// Reading digits stays inside the text.
pub proof fn lemma_scan_digits(s: Seq<char>, i: int)
    requires
        0 <= i <= s.len(),
    ensures
        i <= scan_digits(s, i).1 <= s.len(),
    decreases s.len() - i,
{
    if i < s.len() && is_digit(s[i]) {
        lemma_scan_digits(s, i + 1);
    }
}

/// Reading a character literal at `i` (which holds the opening quote).
pub open spec fn lex_char_lit(s: Seq<char>, i: int) -> Option<(Tok, int)> {
    if i + 1 < s.len() && s[i + 1] == '\\' {
        if i + 3 < s.len() && s[i + 3] == '\'' {
            match esc_value(s[i + 2]) {
                None => None,
                Some(c) => Some((Tok::Lit(LitV::Char(c)), i + 4)),
            }
        } else {
            None
        }
    } else if i + 2 < s.len() && s[i + 1] != '\'' && s[i + 2] == '\'' {
        Some((Tok::Lit(LitV::Char(s[i + 1])), i + 3))
    } else {
        None
    }
}

/// Whether `i` (holding `r`) opens a raw string literal.
pub open spec fn raw_starts(s: Seq<char>, i: int) -> bool {
    let h = count_hashes(s, i + 1);
    i + 1 + h < s.len() && s[i + 1 + h] == '"'
}

/// Reading one token at `i`, which holds no whitespace: the token and
/// the position after it, or nothing where no token starts there.
pub open spec fn lex_token(s: Seq<char>, i: int) -> Option<(Tok, int)>
    decreases s.len() - i, 2int,
    when 0 <= i < s.len()
{
    let c = s[i];
    if c == '(' {
        match lex_run(s, i + 1, Some(')')) {
            None => None,
            Some((ts, e)) => Some((Tok::Group(Delim::Paren, ts), e)),
        }
    } else if c == '[' {
        match lex_run(s, i + 1, Some(']')) {
            None => None,
            Some((ts, e)) => Some((Tok::Group(Delim::Bracket, ts), e)),
        }
    } else if c == '{' {
        match lex_run(s, i + 1, Some('}')) {
            None => None,
            Some((ts, e)) => Some((Tok::Group(Delim::Brace, ts), e)),
        }
    } else if c == ')' || c == ']' || c == '}' {
        None
    } else if c == '"' {
        match scan_str(s, i + 1) {
            None => None,
            Some((v, e)) => Some((Tok::Lit(LitV::Str(v)), e)),
        }
    } else if c == '\'' {
        lex_char_lit(s, i)
    } else if c == 'r' && raw_starts(s, i) {
        let h = count_hashes(s, i + 1);
        match scan_raw(s, i + 2 + h, h) {
            None => None,
            Some((v, e)) => Some((Tok::Lit(LitV::RawStr(v, h as usize)), e)),
        }
    } else if is_ident_start(c) {
        let r = scan_ident(s, i);
        Some((Tok::Ident(r.0), r.1))
    } else if is_digit(c) {
        let d1 = scan_digits(s, i);
        if d1.1 < s.len() && s[d1.1] == '.' && d1.1 + 1 < s.len() && is_digit(s[d1.1 + 1]) {
            let d2 = scan_digits(s, d1.1 + 1);
            Some((Tok::Lit(LitV::Float(d1.0 + seq!['.'] + d2.0)), d2.1))
        } else {
            Some((Tok::Lit(LitV::Int(d1.0)), d1.1))
        }
    } else {
        Some((Tok::Punct(c), i + 1))
    }
}

/// Reading tokens from `i` until the closing delimiter (which is
/// consumed), or until the end of the text where none is owed.
pub open spec fn lex_run(s: Seq<char>, i: int, closer: Option<char>) -> Option<(Seq<Tok>, int)>
    decreases s.len() - i, 3int,
    when 0 <= i <= s.len()
    via lex_run_dec
{
    let j = skip_ws(s, i);
    if j >= s.len() {
        if closer is Some {
            None
        } else {
            Some((Seq::empty(), j))
        }
    } else if closer == Some(s[j]) {
        Some((Seq::empty(), j + 1))
    } else {
        match lex_token(s, j) {
            None => None,
            Some((t, k)) => if j < k <= s.len() {
                match lex_run(s, k, closer) {
                    None => None,
                    Some((ts, e)) => Some((seq![t] + ts, e)),
                }
            } else {
                None
            },
        }
    }
}

#[via_fn]
proof fn lex_run_dec(s: Seq<char>, i: int, closer: Option<char>) {
    lemma_skip_ws(s, i);
}

/// Reading a whole text as a token sequence.
pub open spec fn lex_spec(s: Seq<char>) -> Option<Seq<Tok>> {
    match lex_run(s, 0, None) {
        None => None,
        Some((ts, e)) => Some(ts),
    }
}

/// Prefixing an accumulated payload onto a scanner's remaining result.
pub open spec fn prepend_chars(pre: Seq<char>, r: Option<(Seq<char>, int)>) -> Option<
    (Seq<char>, int),
> {
    match r {
        None => None,
        Some((v, e)) => Some((pre + v, e)),
    }
}

/// Prefixing accumulated tokens onto a reader's remaining result.
pub open spec fn prepend_toks(pre: Seq<Tok>, r: Option<(Seq<Tok>, int)>) -> Option<
    (Seq<Tok>, int),
> {
    match r {
        None => None,
        Some((v, e)) => Some((pre + v, e)),
    }
}

/// Whether `c` is whitespace.
fn is_ws_exec(c: char) -> (r: bool)
    ensures
        r == is_ws(c),
{
    c == ' ' || c == '\n' || c == '\t' || c == '\r'
}

/// Whether `c` is a decimal digit.
fn is_digit_exec(c: char) -> (r: bool)
    ensures
        r == is_digit(c),
{
    let u = c as u32;
    48 <= u && u <= 57
}

/// Whether `c` may open an identifier.
fn is_ident_start_exec(c: char) -> (r: bool)
    ensures
        r == is_ident_start(c),
{
    let u = c as u32;
    (97 <= u && u <= 122) || (65 <= u && u <= 90) || c == '_'
}

/// Whether `c` may continue an identifier.
fn is_ident_cont_exec(c: char) -> (r: bool)
    ensures
        r == is_ident_cont(c),
{
    is_ident_start_exec(c) || is_digit_exec(c)
}

/// The character denoted by one escape code.
fn esc_value_exec(c: char) -> (r: Option<char>)
    ensures
        r == esc_value(c),
{
    if c == '"' {
        Some('"')
    } else if c == '\'' {
        Some('\'')
    } else if c == '\\' {
        Some('\\')
    } else if c == 'n' {
        Some('\n')
    } else if c == 'r' {
        Some('\r')
    } else if c == 't' {
        Some('\t')
    } else if c == '0' {
        Some('\0')
    } else {
        None
    }
}

/// The first position at or after `i` holding no whitespace.
fn skip_ws_exec(s: &Vec<char>, i: usize) -> (r: usize)
    requires
        i <= s.len(),
    ensures
        r as int == skip_ws(s@, i as int),
        i <= r <= s.len(),
{
    let mut cur = i;
    while cur < s.len() && is_ws_exec(s[cur])
        invariant
            i <= cur <= s.len(),
            skip_ws(s@, i as int) == skip_ws(s@, cur as int),
        decreases s.len() - cur,
    {
        cur = cur + 1;
    }
    proof {
        lemma_skip_ws(s@, cur as int);
    }
    cur
}

/// Reads a cooked string payload from `i` up to its closing quote.
fn scan_str_exec(s: &Vec<char>, i: usize) -> (r: Option<(Vec<char>, usize)>)
    requires
        i <= s.len(),
    ensures
        match r {
            Some(p) => scan_str(s@, i as int) == Some((p.0@, p.1 as int)) && i < p.1 <= s.len(),
            None => scan_str(s@, i as int) is None,
        },
{
    let mut acc: Vec<char> = Vec::new();
    let mut cur = i;
    loop
        invariant
            i <= cur <= s.len(),
            (match scan_str(s@, cur as int) {
                Some((v, e)) => scan_str(s@, i as int) == Some((acc@ + v, e)) && cur < e <= s.len()
                    ==> true,
                None => scan_str(s@, i as int) is None,
            }),
            (forall|v: Seq<char>, e: int|
                scan_str(s@, cur as int) == Some((v, e)) ==> scan_str(s@, i as int) == Some(
                    (acc@ + v, e),
                )),
        decreases s.len() - cur,
    {
        if cur >= s.len() {
            return None;
        }
        let c = s[cur];
        if c == '"' {
            proof {
                assert(scan_str(s@, cur as int) == Some((Seq::<char>::empty(), cur + 1 as int)));
                assert(acc@ + Seq::<char>::empty() =~= acc@);
            }
            return Some((acc, cur + 1));
        } else if c == '\\' {
            if cur + 1 >= s.len() {
                return None;
            }
            match esc_value_exec(s[cur + 1]) {
                None => {
                    return None;
                },
                Some(v) => {
                    let ghost prev = acc@;
                    acc.push(v);
                    proof {
                        assert forall|v2: Seq<char>, e: int|
                            scan_str(s@, cur + 2 as int) == Some((v2, e)) implies scan_str(
                            s@,
                            i as int,
                        ) == Some((acc@ + v2, e)) by {
                            assert(scan_str(s@, cur as int) == Some((seq![v] + v2, e)));
                            assert(prev + (seq![v] + v2) =~= acc@ + v2);
                        };
                    }
                    cur = cur + 2;
                },
            }
        } else {
            let ghost prev = acc@;
            acc.push(c);
            proof {
                assert forall|v2: Seq<char>, e: int|
                    scan_str(s@, cur + 1 as int) == Some((v2, e)) implies scan_str(s@, i as int)
                    == Some((acc@ + v2, e)) by {
                    assert(scan_str(s@, cur as int) == Some((seq![c] + v2, e)));
                    assert(prev + (seq![c] + v2) =~= acc@ + v2);
                };
            }
            cur = cur + 1;
        }
    }
}

/// The number of consecutive fence marks at `i`.
fn count_hashes_exec(s: &Vec<char>, i: usize) -> (r: usize)
    requires
        i <= s.len(),
    ensures
        r as int == count_hashes(s@, i as int),
        i + r <= s.len(),
{
    let mut cur = i;
    while cur < s.len() && s[cur] == '#'
        invariant
            i <= cur <= s.len(),
            count_hashes(s@, i as int) == cur - i + count_hashes(s@, cur as int),
        decreases s.len() - cur,
    {
        cur = cur + 1;
    }
    cur - i
}

/// Whether a raw string fenced by `h` marks terminates at `i`.
fn raw_end_at_exec(s: &Vec<char>, i: usize, h: usize) -> (r: bool)
    requires
        i <= s.len(),
    ensures
        r == raw_end_at(s@, i as int, h as int),
{
    if i >= s.len() || s[i] != '"' {
        return false;
    }
    if s.len() - (i + 1) < h {
        return false;
    }
    let mut j: usize = 0;
    while j < h
        invariant
            j <= h,
            i < s.len(),
            s@[i as int] == '"',
            i + 1 + h <= s.len(),
            forall|k: int| i + 1 <= k < i + 1 + j ==> s@[k] == '#',
        decreases h - j,
    {
        if s[i + 1 + j] != '#' {
            return false;
        }
        j = j + 1;
    }
    true
}

/// Reads a raw string payload from `i` up to its terminator.
fn scan_raw_exec(s: &Vec<char>, i: usize, h: usize) -> (r: Option<(Vec<char>, usize)>)
    requires
        i <= s.len(),
    ensures
        match r {
            Some(p) => scan_raw(s@, i as int, h as int) == Some((p.0@, p.1 as int)) && i < p.1
                <= s.len(),
            None => scan_raw(s@, i as int, h as int) is None,
        },
{
    let mut acc: Vec<char> = Vec::new();
    let mut cur = i;
    loop
        invariant
            i <= cur <= s.len(),
            scan_raw(s@, i as int, h as int) == prepend_chars(
                acc@,
                scan_raw(s@, cur as int, h as int),
            ),
        decreases s.len() - cur,
    {
        if cur >= s.len() {
            return None;
        }
        if raw_end_at_exec(s, cur, h) {
            proof {
                assert(scan_raw(s@, cur as int, h as int) == Some(
                    (Seq::<char>::empty(), cur + 1 + h as int),
                ));
                assert(acc@ + Seq::<char>::empty() =~= acc@);
            }
            return Some((acc, cur + 1 + h));
        }
        let c = s[cur];
        let ghost prev = acc@;
        acc.push(c);
        proof {
            match scan_raw(s@, cur + 1 as int, h as int) {
                Some((v2, e)) => {
                    assert(scan_raw(s@, cur as int, h as int) == Some((seq![c] + v2, e)));
                    assert(prev + (seq![c] + v2) =~= acc@ + v2);
                },
                None => {},
            }
        }
        cur = cur + 1;
    }
}

/// Reads the identifier characters from `i`.
fn scan_ident_exec(s: &Vec<char>, i: usize) -> (r: (Vec<char>, usize))
    requires
        i <= s.len(),
    ensures
        scan_ident(s@, i as int) == (r.0@, r.1 as int),
        i <= r.1 <= s.len(),
{
    let mut acc: Vec<char> = Vec::new();
    let mut cur = i;
    while cur < s.len() && is_ident_cont_exec(s[cur])
        invariant
            i <= cur <= s.len(),
            scan_ident(s@, i as int) == (acc@ + scan_ident(s@, cur as int).0, scan_ident(
                s@,
                cur as int,
            ).1),
        decreases s.len() - cur,
    {
        let c = s[cur];
        let ghost prev = acc@;
        acc.push(c);
        proof {
            let r2 = scan_ident(s@, cur + 1 as int);
            assert(scan_ident(s@, cur as int) == (seq![c] + r2.0, r2.1));
            assert(prev + (seq![c] + r2.0) =~= acc@ + r2.0);
        }
        cur = cur + 1;
    }
    proof {
        assert(scan_ident(s@, cur as int) == (Seq::<char>::empty(), cur as int));
        assert(acc@ + Seq::<char>::empty() =~= acc@);
        lemma_scan_ident(s@, i as int);
    }
    (acc, cur)
}

/// Reads the digits from `i`.
fn scan_digits_exec(s: &Vec<char>, i: usize) -> (r: (Vec<char>, usize))
    requires
        i <= s.len(),
    ensures
        scan_digits(s@, i as int) == (r.0@, r.1 as int),
        i <= r.1 <= s.len(),
{
    let mut acc: Vec<char> = Vec::new();
    let mut cur = i;
    while cur < s.len() && is_digit_exec(s[cur])
        invariant
            i <= cur <= s.len(),
            scan_digits(s@, i as int) == (acc@ + scan_digits(s@, cur as int).0, scan_digits(
                s@,
                cur as int,
            ).1),
        decreases s.len() - cur,
    {
        let c = s[cur];
        let ghost prev = acc@;
        acc.push(c);
        proof {
            let r2 = scan_digits(s@, cur + 1 as int);
            assert(scan_digits(s@, cur as int) == (seq![c] + r2.0, r2.1));
            assert(prev + (seq![c] + r2.0) =~= acc@ + r2.0);
        }
        cur = cur + 1;
    }
    proof {
        assert(scan_digits(s@, cur as int) == (Seq::<char>::empty(), cur as int));
        assert(acc@ + Seq::<char>::empty() =~= acc@);
        lemma_scan_digits(s@, i as int);
    }
    (acc, cur)
}

/// Reads one token at `i`, which holds no whitespace.
#[verifier::rlimit(100)]
fn lex_token_exec(s: &Vec<char>, i: usize) -> (r: Option<(Token, usize)>)
    requires
        i < s.len(),
    ensures
        match r {
            Some(p) => lex_token(s@, i as int) == Some((tok_view(p.0), p.1 as int)) && i < p.1
                <= s.len(),
            None => lex_token(s@, i as int) is None,
        },
    decreases s.len() - i, 2int,
{
    let c = s[i];
    if c == '(' {
        match lex_run_exec(s, i + 1, Some(')')) {
            None => None,
            Some((ts, e)) => {
                let t = Token::Group(Delim::Paren, ts);
                assert(lex_token(s@, i as int) == Some((tok_view(t), e as int)));
                Some((t, e))
            },
        }
    } else if c == '[' {
        match lex_run_exec(s, i + 1, Some(']')) {
            None => None,
            Some((ts, e)) => {
                let t = Token::Group(Delim::Bracket, ts);
                assert(lex_token(s@, i as int) == Some((tok_view(t), e as int)));
                Some((t, e))
            },
        }
    } else if c == '{' {
        match lex_run_exec(s, i + 1, Some('}')) {
            None => None,
            Some((ts, e)) => {
                let t = Token::Group(Delim::Brace, ts);
                assert(lex_token(s@, i as int) == Some((tok_view(t), e as int)));
                Some((t, e))
            },
        }
    } else if c == ')' || c == ']' || c == '}' {
        assert(lex_token(s@, i as int) is None);
        None
    } else if c == '"' {
        match scan_str_exec(s, i + 1) {
            None => None,
            Some((v, e)) => {
                let t = Token::Lit(Lit::Str(v));
                assert(lex_token(s@, i as int) == Some((tok_view(t), e as int)));
                Some((t, e))
            },
        }
    } else if c == '\'' {
        if s.len() - i > 1 && s[i + 1] == '\\' {
            if s.len() - i > 3 && s[i + 3] == '\'' {
                match esc_value_exec(s[i + 2]) {
                    None => None,
                    Some(v) => {
                        let t = Token::Lit(Lit::Char(v));
                        assert(lex_token(s@, i as int) == Some((tok_view(t), (i + 4) as int)));
                        Some((t, i + 4))
                    },
                }
            } else {
                None
            }
        } else if s.len() - i > 2 && s[i + 1] != '\'' && s[i + 2] == '\'' {
            let t = Token::Lit(Lit::Char(s[i + 1]));
            assert(lex_token(s@, i as int) == Some((tok_view(t), (i + 3) as int)));
            Some((t, i + 3))
        } else {
            None
        }
    } else if c == 'r' && {
        let h = count_hashes_exec(s, i + 1);
        i + 1 + h < s.len() && s[i + 1 + h] == '"'
    } {
        let h = count_hashes_exec(s, i + 1);
        match scan_raw_exec(s, i + 2 + h, h) {
            None => None,
            Some((v, e)) => {
                let t = Token::Lit(Lit::RawStr(v, h));
                assert(lex_token(s@, i as int) == Some((tok_view(t), e as int)));
                Some((t, e))
            },
        }
    } else if is_ident_start_exec(c) {
        proof {
            lemma_scan_ident(s@, i + 1 as int);
        }
        let (v, e) = scan_ident_exec(s, i);
        let t = Token::Ident(v);
        assert(lex_token(s@, i as int) == Some((tok_view(t), e as int)));
        Some((t, e))
    } else if is_digit_exec(c) {
        proof {
            lemma_scan_digits(s@, i + 1 as int);
        }
        let (d1, e1) = scan_digits_exec(s, i);
        if e1 < s.len() && s[e1] == '.' && e1 + 1 < s.len() && is_digit_exec(s[e1 + 1]) {
            proof {
                lemma_scan_digits(s@, e1 + 2 as int);
            }
            let (d2, e2) = scan_digits_exec(s, e1 + 1);
            let mut text = d1;
            text.push('.');
            crate::text::push_all(&mut text, &d2);
            proof {
                let sd1 = scan_digits(s@, i as int);
                let sd2 = scan_digits(s@, e1 + 1 as int);
                assert(text@ =~= sd1.0 + seq!['.'] + sd2.0);
            }
            let t = Token::Lit(Lit::Float(text));
            assert(lex_token(s@, i as int) == Some((tok_view(t), e2 as int)));
            Some((t, e2))
        } else {
            let t = Token::Lit(Lit::Int(d1));
            assert(lex_token(s@, i as int) == Some((tok_view(t), e1 as int)));
            Some((t, e1))
        }
    } else {
        let t = Token::Punct(c);
        assert(lex_token(s@, i as int) == Some((tok_view(t), (i + 1) as int)));
        Some((t, i + 1))
    }
}

/// Reads tokens from `i` until the closing delimiter, which is consumed.
fn lex_run_exec(s: &Vec<char>, i: usize, closer: Option<char>) -> (r: Option<(Vec<Token>, usize)>)
    requires
        i <= s.len(),
    ensures
        match r {
            Some(p) => lex_run(s@, i as int, closer) == Some((toks_view(p.0@), p.1 as int)) && i
                <= p.1 <= s.len(),
            None => lex_run(s@, i as int, closer) is None,
        },
    decreases s.len() - i, 3int,
{
    let mut acc: Vec<Token> = Vec::new();
    let mut cur = i;
    loop
        invariant
            i <= cur <= s.len(),
            lex_run(s@, i as int, closer) == prepend_toks(
                toks_view(acc@),
                lex_run(s@, cur as int, closer),
            ),
        decreases s.len() - cur,
    {
        let j = skip_ws_exec(s, cur);
        if j >= s.len() {
            match closer {
                Some(_) => {
                    return None;
                },
                None => {
                    proof {
                        assert(lex_run(s@, cur as int, closer) == Some(
                            (Seq::<Tok>::empty(), j as int),
                        ));
                        assert(toks_view(acc@) + Seq::<Tok>::empty() =~= toks_view(acc@));
                    }
                    return Some((acc, j));
                },
            }
        }
        let cj = s[j];
        let hit = match closer {
            Some(cc) => cc == cj,
            None => false,
        };
        if hit {
            proof {
                assert(closer == Some(s@[j as int]));
                assert(lex_run(s@, cur as int, closer) == Some(
                    (Seq::<Tok>::empty(), j + 1 as int),
                ));
                assert(toks_view(acc@) + Seq::<Tok>::empty() =~= toks_view(acc@));
            }
            return Some((acc, j + 1));
        }
        proof {
            assert(closer != Some(s@[j as int]));
        }
        match lex_token_exec(s, j) {
            None => {
                return None;
            },
            Some((t, k)) => {
                let ghost prev = acc@;
                acc.push(t);
                proof {
                    match lex_run(s@, k as int, closer) {
                        Some((v2, e)) => {
                            assert(lex_run(s@, cur as int, closer) == Some(
                                (seq![tok_view(t)] + v2, e),
                            ));
                            assert(toks_view(prev) + (seq![tok_view(t)] + v2) =~= toks_view(acc@)
                                + v2);
                        },
                        None => {},
                    }
                }
                cur = k;
            },
        }
    }
}

/// Reads a whole text as a token sequence: the library's own grammar
/// over the canonical spelling of its token model.
pub fn lex(s: &Vec<char>) -> (r: Option<Vec<Token>>)
    ensures
        match r {
            Some(v) => lex_spec(s@) == Some(toks_view(v@)),
            None => lex_spec(s@) is None,
        },
{
    match lex_run_exec(s, 0, None) {
        None => None,
        Some((ts, _)) => Some(ts),
    }
}

} // verus!
