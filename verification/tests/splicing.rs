use token_splice::engine::paste;
use token_splice::splice::SpliceError;
use token_splice::token::Delim;
use token_splice::token::LitKind;
use token_splice::token::Token;

fn ident(s: &str, span: u64) -> Token {
    Token::Ident { text: s.as_bytes().to_vec(), span }
}

fn lit_int(s: &str, span: u64) -> Token {
    Token::Lit { text: s.as_bytes().to_vec(), kind: LitKind::Integer, span }
}

fn lit_str(s: &str, span: u64) -> Token {
    Token::Lit { text: s.as_bytes().to_vec(), kind: LitKind::Str, span }
}

fn lit_float(s: &str, span: u64) -> Token {
    Token::Lit { text: s.as_bytes().to_vec(), kind: LitKind::Float, span }
}

fn punct(c: char, span: u64) -> Token {
    Token::Punct { ch: c as u8, span }
}

fn group(delim: Delim, tokens: Vec<Token>, span: u64) -> Token {
    Token::Group { delim, tokens, span }
}

/// Wraps fragment tokens in the splice markers `[<` and `>]`.
fn unit(frags: Vec<Token>, span: u64) -> Token {
    let mut tokens = vec![punct('<', span)];
    for t in frags {
        tokens.push(t);
    }
    tokens.push(punct('>', span));
    group(Delim::Bracket, tokens, span)
}

#[test]
fn idempotence_marker_free_sequence() {
    let input = || {
        vec![
            ident("foo", 1),
            punct(';', 2),
            group(Delim::Paren, vec![ident("x", 3), punct(',', 4), lit_int("9", 5)], 6),
        ]
    };
    let once = paste(input()).unwrap();
    assert_eq!(once, input());
    let twice = paste(once).unwrap();
    assert_eq!(twice, input());
}

#[test]
fn idempotence_of_resolved_output() {
    let input = vec![unit(vec![ident("a", 1), ident("b", 2)], 3), punct(';', 4)];
    let once = paste(input).unwrap();
    let expected = vec![ident("ab", 3), punct(';', 4)];
    assert_eq!(once, expected);
    let twice = paste(once).unwrap();
    assert_eq!(twice, expected);
}

#[test]
fn span_preserved_without_span_modifier() {
    let input = vec![unit(vec![ident("a", 1), ident("b", 2)], 7)];
    let out = paste(input).unwrap();
    assert_eq!(out, vec![ident("ab", 7)]);
}

#[test]
fn concat_three_identifier_fragments() {
    let input = vec![unit(vec![ident("foo", 1), ident("_", 2), ident("bar", 3)], 4)];
    let out = paste(input).unwrap();
    assert_eq!(out.len(), 1);
    assert_eq!(out, vec![ident("foo_bar", 4)]);
}

#[test]
fn lower_modifier_folds_case() {
    let input = vec![unit(vec![ident("FOO", 1), punct(':', 2), ident("lower", 3)], 4)];
    let out = paste(input).unwrap();
    assert_eq!(out, vec![ident("foo", 4)]);
}

#[test]
fn upper_modifier_folds_case() {
    let input = vec![unit(vec![ident("foo", 1), punct(':', 2), ident("upper", 3)], 4)];
    let out = paste(input).unwrap();
    assert_eq!(out, vec![ident("FOO", 4)]);
}

#[test]
fn last_case_modifier_wins() {
    let both = vec![unit(
        vec![
            ident("fOo", 1),
            punct(':', 2),
            ident("lower", 3),
            punct(':', 4),
            ident("upper", 5),
        ],
        6,
    )];
    let upper_alone = vec![unit(vec![ident("fOo", 1), punct(':', 2), ident("upper", 3)], 6)];
    assert_eq!(paste(both).unwrap(), paste(upper_alone).unwrap());
    let again = vec![unit(
        vec![
            ident("fOo", 1),
            punct(':', 2),
            ident("lower", 3),
            punct(':', 4),
            ident("upper", 5),
        ],
        6,
    )];
    assert_eq!(paste(again).unwrap(), vec![ident("FOO", 6)]);
}

#[test]
fn integer_literal_concatenation() {
    let input = vec![unit(vec![ident("item", 1), lit_int("42", 2)], 3)];
    let out = paste(input).unwrap();
    assert_eq!(out, vec![ident("item42", 3)]);
}

#[test]
fn string_literal_contributes_contents() {
    let input = vec![unit(
        vec![ident("some_", 1), lit_str("foo", 2), ident("_fn", 3), lit_int("100", 4)],
        5,
    )];
    let out = paste(input).unwrap();
    assert_eq!(out, vec![ident("some_foo_fn100", 5)]);
}

#[test]
fn inner_splice_resolves_before_outer_group() {
    let input = vec![group(
        Delim::Paren,
        vec![unit(vec![ident("a", 1), ident("b", 2)], 3)],
        4,
    )];
    let out = paste(input).unwrap();
    assert_eq!(out, vec![group(Delim::Paren, vec![ident("ab", 3)], 4)]);
}

#[test]
fn unclosed_open_marker_rejected() {
    let input = vec![group(Delim::Bracket, vec![punct('<', 1), ident("a", 2)], 9)];
    let err = paste(input).unwrap_err();
    assert_eq!(err, SpliceError::MalformedSpliceSyntax { span: 9 });
}

#[test]
fn surrounding_tokens_kept_byte_for_byte() {
    let input = vec![
        ident("before", 1),
        punct('=', 2),
        unit(vec![ident("a", 3), ident("b", 4)], 5),
        punct(';', 6),
        group(Delim::Brace, vec![ident("inside", 7)], 8),
    ];
    let out = paste(input).unwrap();
    assert_eq!(out.len(), 5);
    assert_eq!(out[0], ident("before", 1));
    assert_eq!(out[1], punct('=', 2));
    assert_eq!(out[2], ident("ab", 5));
    assert_eq!(out[3], punct(';', 6));
    assert_eq!(out[4], group(Delim::Brace, vec![ident("inside", 7)], 8));
}

#[test]
fn empty_unit_rejected() {
    let input = vec![unit(vec![], 5)];
    let err = paste(input).unwrap_err();
    assert_eq!(err, SpliceError::EmptySpliceUnit { span: 5 });
}

#[test]
fn nested_splice_unit_rejected() {
    let inner = unit(vec![ident("b", 1)], 2);
    let input = vec![unit(vec![ident("a", 3), inner], 4)];
    let err = paste(input).unwrap_err();
    assert_eq!(err, SpliceError::MalformedSpliceSyntax { span: 2 });
}

#[test]
fn unknown_modifier_rejected() {
    let input = vec![unit(vec![ident("a", 1), punct(':', 2), ident("wat", 3)], 4)];
    let err = paste(input).unwrap_err();
    assert_eq!(err, SpliceError::UnknownModifier { span: 3 });
}

#[test]
fn float_literal_rejected() {
    let input = vec![unit(vec![ident("x", 1), lit_float("1.5", 2)], 3)];
    let err = paste(input).unwrap_err();
    assert_eq!(err, SpliceError::UnsupportedFragmentKind { span: 2 });
}

#[test]
fn string_literal_with_unsafe_chars_rejected() {
    let input = vec![unit(vec![lit_str("a b", 2)], 3)];
    let err = paste(input).unwrap_err();
    assert_eq!(err, SpliceError::UnsupportedFragmentKind { span: 2 });
}

#[test]
fn punctuation_inside_unit_rejected() {
    let input = vec![unit(vec![ident("a", 1), punct('+', 2), ident("b", 3)], 4)];
    let err = paste(input).unwrap_err();
    assert_eq!(err, SpliceError::UnsupportedFragmentKind { span: 2 });
}

#[test]
fn ordinary_group_inside_unit_rejected() {
    let input = vec![unit(vec![group(Delim::Paren, vec![ident("a", 1)], 2)], 3)];
    let err = paste(input).unwrap_err();
    assert_eq!(err, SpliceError::UnsupportedFragmentKind { span: 2 });
}

#[test]
fn colon_without_fragment_rejected() {
    let input = vec![unit(vec![punct(':', 1), ident("lower", 2)], 3)];
    let err = paste(input).unwrap_err();
    assert_eq!(err, SpliceError::MalformedSpliceSyntax { span: 1 });
}

#[test]
fn span_modifier_retags_with_reference() {
    let reference = ident("origin", 42);
    let input = vec![
        reference,
        punct(';', 2),
        unit(
            vec![
                ident("a", 3),
                punct(':', 4),
                ident("span", 5),
                group(Delim::Paren, vec![ident("origin", 6)], 7),
            ],
            8,
        ),
    ];
    let out = paste(input).unwrap();
    assert_eq!(out[2], ident("a", 42));
}

#[test]
fn span_modifier_unresolved_reference_rejected() {
    let input = vec![unit(
        vec![
            ident("a", 1),
            punct(':', 2),
            ident("span", 3),
            group(Delim::Paren, vec![ident("nope", 4)], 5),
        ],
        6,
    )];
    let err = paste(input).unwrap_err();
    assert_eq!(err, SpliceError::UnresolvedSpanReference { span: 3 });
}

#[test]
fn span_modifier_without_argument_rejected() {
    let input = vec![unit(vec![ident("a", 1), punct(':', 2), ident("span", 3)], 4)];
    let err = paste(input).unwrap_err();
    assert_eq!(err, SpliceError::MalformedSpliceSyntax { span: 3 });
}

#[test]
fn case_folding_exact_values() {
    let lowered = token_splice::fold::to_lower(&"AbC_9z".as_bytes().to_vec());
    assert_eq!(lowered, "abc_9z".as_bytes().to_vec());
    let raised = token_splice::fold::to_upper(&"AbC_9z".as_bytes().to_vec());
    assert_eq!(raised, "ABC_9Z".as_bytes().to_vec());
}
