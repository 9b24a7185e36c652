use tokel::case::{CaseStyle, TransformCase};
use tokel::chain::{Transform, TransformChain, TransformKind};
use tokel::concatenate::{Concatenate, TransformConcatenate};
use tokel::embed::Embed;
use tokel::error::EmbedError;
use tokel::kinds::{
    TransformAppend, TransformCount, TransformFlatten, TransformPrefix, TransformReverse,
    TransformUngroup,
};
use tokel::stringify::TransformStringify;
use tokel::token::{Delim, Lit, Token};
use tokel::unstringify::TransformUnstringify;

fn chars(s: &str) -> Vec<char> {
    s.chars().collect()
}

fn ident(s: &str) -> Token {
    Token::Ident(chars(s))
}

fn punct(c: char) -> Token {
    Token::Punct(c)
}

fn group(d: Delim, ts: Vec<Token>) -> Token {
    Token::Group(d, ts)
}

/// The single token `(hello [world])` used by several scenarios.
fn hello_world_group() -> Token {
    group(
        Delim::Paren,
        vec![ident("hello"), group(Delim::Bracket, vec![ident("world")])],
    )
}

/// A marked region `[< token :kind{args} ... >]` around one segment.
fn region(mut segment: Vec<Token>) -> Token {
    let mut inner = vec![punct('<')];
    inner.append(&mut segment);
    inner.push(punct('>'));
    group(Delim::Bracket, inner)
}

fn chain_tokens(kind: &str, args: Option<Vec<Token>>) -> Vec<Token> {
    let mut out = vec![punct(':'), ident(kind)];
    if let Some(a) = args {
        out.push(group(Delim::Brace, a));
    }
    out
}

#[test]
fn expand_flatten_scenario() {
    let mut seg = vec![hello_world_group()];
    seg.append(&mut chain_tokens("flatten", None));
    let input = vec![region(seg)];
    let out = Embed::recursively_expand(&input).unwrap();
    assert_eq!(out, vec![ident("hello"), ident("world")]);
}

#[test]
fn expand_ungroup_scenario() {
    let mut seg = vec![hello_world_group()];
    seg.append(&mut chain_tokens("ungroup", None));
    let input = vec![region(seg)];
    let out = Embed::recursively_expand(&input).unwrap();
    assert_eq!(
        out,
        vec![ident("hello"), group(Delim::Bracket, vec![ident("world")])]
    );
}

#[test]
fn expand_reverse_scenario() {
    let mut seg = vec![hello_world_group()];
    seg.append(&mut chain_tokens("reverse", None));
    let input = vec![region(seg)];
    let out = Embed::recursively_expand(&input).unwrap();
    // The group is one token, so reversing its singleton sequence
    // leaves it alone; reversing inside the region's segment applies
    // to the group's singleton output.
    assert_eq!(out, vec![hello_world_group()]);
}

#[test]
fn reverse_top_level_order() {
    let input = vec![ident("hello"), group(Delim::Bracket, vec![ident("world")])];
    let out = TransformReverse::apply(&input);
    assert_eq!(
        out,
        vec![group(Delim::Bracket, vec![ident("world")]), ident("hello")]
    );
}

#[test]
fn expand_stringify_scenario() {
    let mut seg = vec![hello_world_group()];
    seg.append(&mut chain_tokens("stringify", None));
    let input = vec![region(seg)];
    let out = Embed::recursively_expand(&input).unwrap();
    assert_eq!(
        out,
        vec![Token::Lit(Lit::RawStr(chars("(hello [world])"), 1))]
    );
}

#[test]
fn expand_ungroup_stringify_scenario() {
    let mut seg = vec![hello_world_group()];
    seg.append(&mut chain_tokens("ungroup", None));
    seg.append(&mut chain_tokens("stringify", None));
    let input = vec![region(seg)];
    let out = Embed::recursively_expand(&input).unwrap();
    assert_eq!(out, vec![Token::Lit(Lit::RawStr(chars("hello [world]"), 1))]);
}

#[test]
fn expand_concatenate_scenario() {
    let mut seg = vec![hello_world_group()];
    seg.append(&mut chain_tokens("concatenate", None));
    let input = vec![region(seg)];
    let out = Embed::recursively_expand(&input).unwrap();
    assert_eq!(out, vec![ident("helloworld")]);
}

#[test]
fn expand_case_pascal_scenario() {
    let mut seg = vec![ident("hello")];
    seg.append(&mut chain_tokens("case", Some(vec![ident("pascal")])));
    let input = vec![region(seg)];
    let out = Embed::recursively_expand(&input).unwrap();
    assert_eq!(out, vec![ident("Hello")]);
}

#[test]
fn case_upper_changes_text() {
    let style = TransformCase::new(&vec![ident("upper")]).unwrap();
    assert_eq!(style, CaseStyle::Upper);
    let out = TransformCase::apply(&vec![ident("hello")], style).unwrap();
    assert_eq!(out, vec![ident("HELLO")]);
}

#[test]
fn case_snake_splits_words() {
    let style = TransformCase::new(&vec![ident("snake")]).unwrap();
    let out = TransformCase::apply(&vec![ident("HelloWorld")], style).unwrap();
    assert_eq!(out, vec![ident("hello_world")]);
}

#[test]
fn case_kebab_relexes_to_three_tokens() {
    let style = TransformCase::new(&vec![ident("kebab")]).unwrap();
    let out = TransformCase::apply(&vec![ident("HelloWorld")], style).unwrap();
    assert_eq!(out, vec![ident("hello"), punct('-'), ident("world")]);
}

#[test]
fn case_recases_string_literal_values() {
    let style = TransformCase::new(&vec![ident("upper")]).unwrap();
    let input = vec![Token::Lit(Lit::Str(chars("hello world")))];
    let out = TransformCase::apply(&input, style).unwrap();
    assert_eq!(out, vec![ident("HELLO"), ident("WORLD")]);
}

#[test]
fn case_rebuilds_groups_as_braces() {
    let style = TransformCase::new(&vec![ident("upper")]).unwrap();
    let input = vec![group(Delim::Paren, vec![ident("hi")])];
    let out = TransformCase::apply(&input, style).unwrap();
    assert_eq!(out, vec![group(Delim::Brace, vec![ident("HI")])]);
}

#[test]
fn unknown_transform_error_names_alternatives() {
    let mut seg = vec![ident("x")];
    seg.append(&mut chain_tokens("nosuchtransform", None));
    let input = vec![region(seg)];
    let err = Embed::recursively_expand(&input).unwrap_err();
    assert_eq!(
        err,
        EmbedError::UnrecognizedTransform(chars("nosuchtransform"))
    );
    let msg: String = err.message().into_iter().collect();
    assert!(msg.contains("unrecognized transform: `nosuchtransform`"));
    assert!(msg.contains("`case`"));
    assert!(msg.contains("`count`"));
}

#[test]
fn unknown_case_error() {
    let mut seg = vec![ident("x")];
    seg.append(&mut chain_tokens("case", Some(vec![ident("nosuchcase")])));
    let input = vec![region(seg)];
    let err = Embed::recursively_expand(&input).unwrap_err();
    assert_eq!(err, EmbedError::UnknownCase(chars("nosuchcase")));
    let msg: String = err.message().into_iter().collect();
    assert!(msg.contains("Unknown case: `nosuchcase`"));
}

#[test]
fn unknown_mode_error() {
    let mut seg = vec![ident("x")];
    seg.append(&mut chain_tokens("concatenate", Some(vec![ident("badmode")])));
    let input = vec![region(seg)];
    let err = Embed::recursively_expand(&input).unwrap_err();
    assert_eq!(err, EmbedError::UnknownMode(chars("badmode")));
    let msg: String = err.message().into_iter().collect();
    assert!(msg.contains("unknown mode: `badmode`"));
}

#[test]
fn expansion_is_identity_without_regions() {
    let input = vec![
        ident("fn"),
        ident("main"),
        group(Delim::Paren, vec![]),
        group(
            Delim::Brace,
            vec![ident("x"), punct('+'), Token::Lit(Lit::Int(chars("1")))],
        ),
    ];
    let out = Embed::recursively_expand(&input).unwrap();
    assert_eq!(out, input);
}

#[test]
fn empty_input_expands_to_nothing() {
    let input: Vec<Token> = Vec::new();
    let out = Embed::recursively_expand(&input).unwrap();
    assert_eq!(out, Vec::new());
}

#[test]
fn count_single_group_token() {
    let input = vec![hello_world_group()];
    let out = TransformCount::apply(&input);
    assert_eq!(out, vec![Token::Lit(Lit::Int(chars("1")))]);
}

#[test]
fn count_two_top_level_tokens() {
    let input = vec![ident("hello"), group(Delim::Bracket, vec![ident("world")])];
    let out = TransformCount::apply(&input);
    assert_eq!(out, vec![Token::Lit(Lit::Int(chars("2")))]);
}

#[test]
fn count_empty_is_zero() {
    let input: Vec<Token> = Vec::new();
    let out = TransformCount::apply(&input);
    assert_eq!(out, vec![Token::Lit(Lit::Int(chars("0")))]);
}

#[test]
fn finalizer_applies_to_whole_block() {
    // [< a b >]:count expands to 2.
    let mut input = vec![region(vec![ident("a"), ident("b")])];
    input.append(&mut chain_tokens("count", None));
    let out = Embed::recursively_expand(&input).unwrap();
    assert_eq!(out, vec![Token::Lit(Lit::Int(chars("2")))]);
}

#[test]
fn nested_region_expands_first() {
    // ( [< a b >]:count ) expands to ( 2 ).
    let mut inner = vec![region(vec![ident("a"), ident("b")])];
    inner.append(&mut chain_tokens("count", None));
    let input = vec![group(Delim::Paren, inner)];
    let out = Embed::recursively_expand(&input).unwrap();
    assert_eq!(
        out,
        vec![group(Delim::Paren, vec![Token::Lit(Lit::Int(chars("2")))])]
    );
}

#[test]
fn append_emits_arguments_after() {
    let out = TransformAppend::apply(&vec![ident("a")], &vec![ident("b"), ident("c")]);
    assert_eq!(out, vec![ident("a"), ident("b"), ident("c")]);
}

#[test]
fn prefix_emits_arguments_before() {
    let out = TransformPrefix::apply(&vec![ident("a")], &vec![ident("b"), ident("c")]);
    assert_eq!(out, vec![ident("b"), ident("c"), ident("a")]);
}

#[test]
fn append_through_region() {
    let mut seg = vec![ident("a")];
    seg.append(&mut chain_tokens("append", Some(vec![ident("b")])));
    let input = vec![region(seg)];
    let out = Embed::recursively_expand(&input).unwrap();
    assert_eq!(out, vec![ident("a"), ident("b")]);
}

#[test]
fn flatten_is_idempotent_on_a_value() {
    let input = vec![hello_world_group(), ident("tail")];
    let once = TransformFlatten::apply(&input);
    let twice = TransformFlatten::apply(&once);
    assert_eq!(once, twice);
    assert_eq!(once, vec![ident("hello"), ident("world"), ident("tail")]);
}

#[test]
fn ungroup_identity_without_groups() {
    let input = vec![ident("a"), punct(','), Token::Lit(Lit::Int(chars("7")))];
    let out = TransformUngroup::apply(&input);
    assert_eq!(out, input);
}

#[test]
fn reverse_is_involutive_on_a_value() {
    let input = vec![ident("a"), ident("b"), hello_world_group()];
    let back = TransformReverse::apply(&TransformReverse::apply(&input));
    assert_eq!(back, input);
}

#[test]
fn unstringify_splices_string_values() {
    let input = vec![Token::Lit(Lit::Str(chars("hello [world]")))];
    let out = TransformUnstringify::apply(&input);
    assert_eq!(
        out,
        vec![ident("hello"), group(Delim::Bracket, vec![ident("world")])]
    );
}

#[test]
fn unstringify_keeps_other_tokens() {
    let input = vec![ident("x"), Token::Lit(Lit::Int(chars("3")))];
    let out = TransformUnstringify::apply(&input);
    assert_eq!(out, input);
}

#[test]
fn stringify_picks_longer_fence_when_needed() {
    let input = vec![punct('#')];
    let out = TransformStringify::apply(&input).unwrap();
    assert_eq!(out, vec![Token::Lit(Lit::RawStr(chars("#"), 2))]);
}

#[test]
fn concatenate_string_mode_joins_values() {
    let mode = TransformConcatenate::new(&vec![ident("string")]).unwrap();
    assert_eq!(mode, Concatenate::String);
    let input = vec![Token::Lit(Lit::Str(chars("ab"))), ident("cd")];
    let out = TransformConcatenate::apply(&input, mode).unwrap();
    assert_eq!(out, vec![Token::Lit(Lit::RawStr(chars("abcd"), 1))]);
}

#[test]
fn concatenate_raw_ident_mode() {
    let mode = TransformConcatenate::new(&vec![ident("r#ident")]).unwrap();
    assert_eq!(mode, Concatenate::RawIdent);
    let input = vec![ident("a"), ident("b")];
    let out = TransformConcatenate::apply(&input, mode).unwrap();
    assert_eq!(out, vec![ident("r#ab")]);
}

#[test]
fn concatenate_refuses_byte_literals() {
    let input = vec![Token::Lit(Lit::Byte(chars("b'a'")))];
    let err = TransformConcatenate::apply(&input, Concatenate::Ident).unwrap_err();
    assert_eq!(err, EmbedError::ByteLiteral);
}

#[test]
fn concatenate_mixes_literal_fragments() {
    let input = vec![
        ident("v"),
        Token::Lit(Lit::Int(chars("2"))),
        Token::Lit(Lit::Str(chars("x"))),
    ];
    let out = TransformConcatenate::apply(&input, Concatenate::Ident).unwrap();
    assert_eq!(out, vec![ident("v2x")]);
}

#[test]
fn chain_parses_and_folds_left_to_right() {
    // :reverse:count over (a b c) leaves count 1 (one group token).
    let toks = chain_tokens("reverse", None)
        .into_iter()
        .chain(chain_tokens("count", None))
        .collect::<Vec<_>>();
    let (chain, end) = TransformChain::parse(&toks, 0).unwrap();
    assert_eq!(end, toks.len());
    let out = chain
        .expand(vec![ident("a"), ident("b"), ident("c")])
        .unwrap();
    assert_eq!(out, vec![Token::Lit(Lit::Int(chars("3")))]);
}

#[test]
fn chain_to_list_keeps_application_order() {
    let toks = chain_tokens("flatten", None)
        .into_iter()
        .chain(chain_tokens("append", Some(vec![ident("z")])))
        .collect::<Vec<_>>();
    let (chain, _) = TransformChain::parse(&toks, 0).unwrap();
    let steps = chain.to_list();
    assert_eq!(steps.len(), 2);
    assert_eq!(steps[0].kind, TransformKind::Flatten);
    assert_eq!(steps[0].args, Vec::new());
    assert_eq!(steps[1].kind, TransformKind::Append);
    assert_eq!(steps[1].args, vec![ident("z")]);
}

#[test]
fn kind_parse_rejects_missing_colon() {
    let toks = vec![ident("case")];
    let err = TransformKind::parse(&toks, 0).unwrap_err();
    assert_eq!(err, EmbedError::ExpectedIdent);
}

#[test]
fn missing_close_marker_fails() {
    // A bracket group [< x > ... ] whose first token is `<` and last is
    // `>` parses as a block; an early `>` leaves trailing tokens.
    let input = vec![group(
        Delim::Bracket,
        vec![punct('<'), ident("x"), punct('>'), ident("y"), punct('>')],
    )];
    let err = Embed::recursively_expand(&input).unwrap_err();
    assert_eq!(err, EmbedError::TrailingTokens);
}

#[test]
fn message_string_matches_its_characters() {
    let err = EmbedError::UnknownCase(chars("foo"));
    assert_eq!(err.message_string(), "Unknown case: `foo`");
}

#[test]
fn empty_region_expands_to_nothing() {
    let input = vec![region(vec![])];
    let out = Embed::recursively_expand(&input).unwrap();
    assert_eq!(out, Vec::new());
}

#[test]
fn block_parse_requires_open_marker() {
    let toks = vec![ident("x")];
    let err = tokel::Block::parse(&toks).unwrap_err();
    assert_eq!(err, EmbedError::MissingOpenMarker);
}

#[test]
fn block_parse_requires_close_marker() {
    let toks = vec![punct('<'), ident("x")];
    let err = tokel::Block::parse(&toks).unwrap_err();
    assert_eq!(err, EmbedError::MissingCloseMarker);
}

#[test]
fn unmarked_bracket_group_passes_through() {
    let input = vec![group(Delim::Bracket, vec![ident("x")])];
    let out = Embed::recursively_expand(&input).unwrap();
    assert_eq!(out, input);
}

#[test]
fn transform_new_passes_arguments_through() {
    let args = vec![ident("a"), punct(',')];
    assert_eq!(TransformAppend::new(&args), args);
    assert_eq!(TransformPrefix::new(&args), args);
    let t = Transform {
        kind: TransformKind::Append,
        args: vec![ident("z")],
    };
    let out = t.apply_to(vec![ident("y")]).unwrap();
    assert_eq!(out, vec![ident("y"), ident("z")]);
}

#[test]
fn stringify_escapes_cooked_strings_in_rendering() {
    // Stringifying a cooked string literal renders its escaped form.
    let input = vec![Token::Lit(Lit::Str(chars("a\"b")))];
    let out = TransformStringify::apply(&input).unwrap();
    assert_eq!(out, vec![Token::Lit(Lit::RawStr(chars("\"a\\\"b\""), 1))]);
}
