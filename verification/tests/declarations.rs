use solcore::body::{body_frame, check_delimiter_nesting, parse_body_span, BodyFrame, MAX_SYNTAX_NESTING};
use solcore::diag::Span;
use solcore::enums::{parse_derived_enum, parse_enum};
use solcore::preds::{parse_pred, parse_pred_list};
use solcore::token::TokenKind::{Colon, Comma, Function, Greater, LBrace, LBracket, LParen, Less, RBrace, RBracket, RParen};
use solcore::token::{Token, TokenKind};
use solcore::typarse::ParsedTyKind;

fn repeat(kind: impl Fn() -> TokenKind, n: usize) -> Vec<TokenKind> {
    (0..n).map(|_| kind()).collect()
}

fn id(name: &str) -> TokenKind {
    TokenKind::Ident(name.to_owned())
}

/// Tokens whose `i`-th token spans `10 * i .. 10 * i + 5`.
fn lex(kinds: Vec<TokenKind>) -> Vec<Token> {
    kinds
        .into_iter()
        .enumerate()
        .map(|(i, kind)| Token { kind, span: Span { start: 10 * i, end: 10 * i + 5 } })
        .collect()
}

#[test]
fn enum_declarations_list_their_constructors_and_fields() {
    let toks = lex(vec![
        id("enum"), id("Shape"), Less, id("a"), Comma, Greater, LBrace,
        id("Circle"), LParen, id("a"), RParen, Comma, id("Empty"), Comma, RBrace, Function,
    ]);
    let (decl, errors, end) = parse_enum(&toks, 0).unwrap();
    assert!(errors.is_empty());
    assert_eq!(end, 15);
    assert_eq!(decl.span, Span { start: 0, end: 145 });
    assert_eq!(decl.name.0, "Shape");
    assert_eq!(decl.ty_params.iter().map(|p| p.0.as_str()).collect::<Vec<_>>(), vec!["a"]);
    assert_eq!(decl.ctors.len(), 2);
    assert_eq!(decl.ctors[0].name.0, "Circle");
    assert_eq!(decl.ctors[0].introducer, Some(Span { start: 60, end: 65 }));
    assert_eq!(decl.ctors[0].span, Span { start: 70, end: 105 });
    assert_eq!(decl.ctors[0].fields.len(), 1);
    assert!(matches!(&decl.ctors[0].fields[0].kind, ParsedTyKind::Named { name, .. } if name.0 == "a"));
    assert_eq!(decl.ctors[1].introducer, Some(Span { start: 110, end: 115 }));
    assert!(decl.ctors[1].fields.is_empty());
}

#[test]
fn enum_without_constructors_or_closing_brace() {
    let (decl, _, end) = parse_enum(&lex(vec![id("enum"), id("Never"), LBrace, RBrace]), 0).unwrap();
    assert!(decl.ctors.is_empty());
    assert_eq!(end, 4);
    assert!(parse_enum(&lex(vec![id("enum"), id("Open"), LBrace, id("A")]), 0).is_none());
    assert!(parse_enum(&lex(vec![id("type"), id("T"), LBrace, RBrace]), 0).is_none());
    assert!(parse_enum(&lex(vec![id("enum"), id("E"), Less, Greater, LBrace, RBrace]), 0).is_none());
}

#[test]
fn constructor_fields_take_no_trailing_comma_and_names_no_hyphen() {
    let toks = lex(vec![id("enum"), id("E"), LBrace, id("A"), LParen, id("word"), Comma, RParen, RBrace]);
    assert!(parse_enum(&toks, 0).is_none());
    let toks = lex(vec![id("enum"), id("my-enum"), LBrace, id("bad-ctor"), RBrace]);
    let (_, errors, _) = parse_enum(&toks, 0).unwrap();
    let messages: Vec<&str> = errors.iter().map(|e| e.message.as_str()).collect();
    assert_eq!(
        messages,
        vec!["identifier `my-enum` cannot contain hyphens", "identifier `bad-ctor` cannot contain hyphens"]
    );
}

#[test]
fn derive_attribute_is_carried_by_the_enum() {
    let toks = lex(vec![
        TokenKind::Hash, LBracket, id("derive"), LParen, id("Eq"), RParen, RBracket,
        id("enum"), id("E"), LBrace, id("A"), RBrace,
    ]);
    let (decl, errors, end) = parse_derived_enum(&toks, 0).unwrap();
    assert!(errors.is_empty());
    assert_eq!(end, 12);
    assert_eq!(decl.span, Span { start: 0, end: 115 });
    assert_eq!(decl.derive_attr.unwrap().targets[0].path[0].0, "Eq");
    let plain = lex(vec![id("enum"), id("E"), LBrace, RBrace]);
    assert!(parse_derived_enum(&plain, 0).unwrap().0.derive_attr.is_none());
    let not_enum = lex(vec![TokenKind::Hash, LBracket, id("derive"), LParen, id("Eq"), RParen, RBracket, Function]);
    assert!(parse_derived_enum(&not_enum, 0).is_none());
}

#[test]
fn body_spans_match_nested_braces() {
    let toks = lex(vec![LBrace, id("a"), LBrace, LBrace, RBrace, RBrace, RBrace, RBrace]);
    assert_eq!(parse_body_span(&toks, 0), Some((Span { start: 0, end: 65 }, 7)));
    assert_eq!(parse_body_span(&toks, 2), Some((Span { start: 20, end: 55 }, 6)));
    assert_eq!(parse_body_span(&lex(vec![LBrace, LBrace, RBrace]), 0), None);
    assert_eq!(parse_body_span(&toks, 1), None);
}

#[test]
fn delimiter_nesting_deeper_than_the_limit_is_reported_once() {
    let mut kinds = repeat(|| LParen, MAX_SYNTAX_NESTING);
    kinds.push(id("x"));
    kinds.extend(repeat(|| RParen, MAX_SYNTAX_NESTING));
    assert!(check_delimiter_nesting(&lex(kinds)).is_empty());

    let mut kinds = repeat(|| LParen, MAX_SYNTAX_NESTING + 2);
    kinds.push(id("x"));
    kinds.extend(repeat(|| RParen, MAX_SYNTAX_NESTING + 2));
    let errors = check_delimiter_nesting(&lex(kinds));
    assert_eq!(errors.len(), 1);
    assert!(errors[0].message.contains("delimiter nesting exceeds the compiler limit"));
    assert_eq!(errors[0].span.start, 10 * MAX_SYNTAX_NESTING);

    let mut mixed = repeat(|| LBracket, 100);
    mixed.extend(repeat(|| RBracket, 100));
    mixed.extend(repeat(|| LBrace, 100));
    mixed.extend(repeat(|| RBrace, 100));
    mixed.push(RParen);
    assert!(check_delimiter_nesting(&lex(mixed)).is_empty());
}

#[test]
fn body_frames_are_empty_invalid_or_the_inside_of_the_braces() {
    let src = "fn f() { x; }".as_bytes();
    assert!(matches!(body_frame(src, Span { start: 7, end: 9 }), BodyFrame::Empty));
    assert!(matches!(body_frame(src, Span { start: 7, end: 13 }), BodyFrame::Contents { start: 8, end: 12 }));
    match body_frame(src, Span { start: 7, end: 40 }) {
        BodyFrame::Invalid(err) => {
            assert_eq!(err.message, "invalid function body span");
            assert_eq!(err.span, Span { start: 7, end: 40 });
        }
        other => panic!("unexpected {other:?}"),
    }
    let accented = "{é}".as_bytes();
    assert!(matches!(body_frame(accented, Span { start: 0, end: 4 }), BodyFrame::Contents { start: 1, end: 3 }));
    assert!(matches!(body_frame(accented, Span { start: 0, end: 3 }), BodyFrame::Invalid(_)));
}

#[test]
fn predicates_name_a_type_its_class_and_class_arguments() {
    let toks = lex(vec![id("a"), Colon, id("Convert"), Less, id("word"), Comma, Greater, Comma]);
    let (pred, errors, end) = parse_pred(&toks, 0).unwrap();
    assert!(errors.is_empty());
    assert_eq!(end, 7);
    assert_eq!(pred.class.0, "Convert");
    assert_eq!(pred.args.len(), 1);
    assert_eq!(pred.args_span, Some(Span { start: 30, end: 65 }));
    let (pred, _, end) = parse_pred(&lex(vec![id("a"), Colon, id("Eq")]), 0).unwrap();
    assert!(pred.args.is_empty() && pred.args_span.is_none());
    assert_eq!(end, 3);
    assert!(parse_pred(&lex(vec![id("a"), id("Eq")]), 0).is_none());
}

#[test]
fn predicate_lists_are_bare_or_parenthesized() {
    let bare = lex(vec![id("a"), Colon, id("Eq"), Comma, id("b"), Colon, id("Ord"), Comma, LBrace]);
    let (preds, _, end) = parse_pred_list(&bare, 0).unwrap();
    assert_eq!(preds.iter().map(|p| p.class.0.as_str()).collect::<Vec<_>>(), vec!["Eq", "Ord"]);
    assert_eq!(end, 8);
    let wrapped = lex(vec![LParen, id("a"), Colon, id("Eq"), RParen, LBrace]);
    let (preds, _, end) = parse_pred_list(&wrapped, 0).unwrap();
    assert_eq!(preds.len(), 1);
    assert_eq!(end, 5);
    let tuple_type = lex(vec![LParen, id("a"), Comma, id("b"), RParen, Colon, id("Pairwise")]);
    let (preds, _, end) = parse_pred_list(&tuple_type, 0).unwrap();
    assert!(matches!(preds[0].ty.kind, ParsedTyKind::Tuple { .. }));
    assert_eq!(end, 7);
    assert!(parse_pred_list(&lex(vec![LBrace]), 0).is_none());
}
