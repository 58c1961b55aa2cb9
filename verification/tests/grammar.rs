use solcore::attr::{parse_derive_attr, DeriveAttr};
use solcore::diag::Span;
use solcore::stmt::ParsedError;
use solcore::token::TokenKind::{
    At, Colon, Comma, Contract, Data, Dot, FatArrow, Function, Greater, LBracket, LParen, Less, RBrace, RBracket,
    RParen,
};
use solcore::token::{Token, TokenKind};
use solcore::typarse::{parse_type, ParsedTy, ParsedTyKind};

fn id(name: &str) -> TokenKind {
    TokenKind::Ident(name.to_owned())
}

/// Tokens whose `i`-th token spans `10 * i .. 10 * i + 5`.
fn lex(kinds: Vec<TokenKind>) -> Vec<Token> {
    kinds
        .into_iter()
        .enumerate()
        .map(|(i, kind)| Token { kind, span: Span { start: 10 * i, end: 10 * i + 5 } })
        .collect()
}

fn messages(errors: &[ParsedError]) -> Vec<&str> {
    errors.iter().map(|e| e.message.as_str()).collect()
}

fn derive(kinds: Vec<TokenKind>) -> (Option<(DeriveAttr, usize)>, Vec<ParsedError>) {
    parse_derive_attr(&lex(kinds), 0)
}

fn paths(attr: &DeriveAttr) -> Vec<Vec<&str>> {
    attr.targets.iter().map(|t| t.path.iter().map(|(n, _)| n.as_str()).collect()).collect()
}

#[test]
fn derive_attribute_lists_dotted_trait_paths() {
    let (attr, errors) = derive(vec![
        TokenKind::Hash, LBracket, id("derive"), LParen, id("Eq"), Comma, id("std"), Dot, id("Ord"), RParen, RBracket,
        Function,
    ]);
    let (attr, end) = attr.unwrap();
    assert!(errors.is_empty());
    assert_eq!(end, 11);
    assert_eq!(paths(&attr), vec![vec!["Eq"], vec!["std", "Ord"]]);
    assert_eq!(attr.span, Span { start: 0, end: 105 });
    assert_eq!(attr.targets[1].span, Span { start: 60, end: 85 });
}

#[test]
fn derive_attribute_without_targets_is_reported() {
    let (attr, errors) = derive(vec![TokenKind::Hash, LBracket, id("derive"), LParen, RParen, RBracket]);
    let (attr, end) = attr.unwrap();
    assert!(attr.targets.is_empty());
    assert_eq!(end, 6);
    assert_eq!(messages(&errors), vec!["derive attribute requires at least one trait path"]);
    assert_eq!(errors[0].span, Span { start: 0, end: 55 });
}

#[test]
fn reserved_keywords_and_hyphens_cannot_name_traits() {
    let (attr, errors) = derive(vec![
        TokenKind::Hash, LBracket, id("derive"), LParen, Contract, Comma, id("my-trait"), RParen, RBracket,
    ]);
    assert_eq!(paths(&attr.unwrap().0), vec![vec!["contract"], vec!["my-trait"]]);
    assert_eq!(
        messages(&errors),
        vec![
            "reserved keyword `contract` cannot name a derived trait",
            "identifier `my-trait` cannot contain hyphens",
        ]
    );
    assert_eq!(errors[1].span, Span { start: 60, end: 65 });
}

#[test]
fn closed_but_malformed_attribute_is_consumed_whole() {
    let (attr, errors) = derive(vec![TokenKind::Hash, LBracket, id("derive"), LParen, id("Eq"), Comma, RParen, RBracket, Data]);
    let (attr, end) = attr.unwrap();
    assert!(attr.targets.is_empty());
    assert_eq!(end, 8);
    assert_eq!(attr.span, Span { start: 0, end: 75 });
    assert_eq!(messages(&errors), vec!["malformed derive attribute; expected `#[derive(Trait, ...)]`"]);

    let (attr, errors) = derive(vec![TokenKind::Hash, LBracket, id("inline"), RBracket]);
    assert_eq!(attr.unwrap().1, 4);
    assert_eq!(messages(&errors), vec!["malformed derive attribute; expected `#[derive(Trait, ...)]`"]);
}

#[test]
fn unclosed_attribute_stops_before_the_next_declaration() {
    let (attr, errors) = derive(vec![TokenKind::Hash, LBracket, id("derive"), LParen, id("Eq"), Contract, id("C")]);
    let (attr, end) = attr.unwrap();
    assert_eq!(end, 5);
    assert_eq!(attr.span, Span { start: 0, end: 45 });
    assert_eq!(messages(&errors), vec!["unclosed derive attribute; expected `]`"]);

    let (attr, _) = derive(vec![TokenKind::Hash, LBracket, id("derive"), id("x"), Colon, id("word")]);
    assert_eq!(attr.unwrap().1, 3);
    let (attr, _) = derive(vec![TokenKind::Hash, LBracket, id("derive"), LParen, id("Eq"), RParen, RBrace]);
    assert_eq!(attr.unwrap().1, 6);
    let (attr, _) = derive(vec![TokenKind::Hash, LBracket, id("derive"), id("trait")]);
    assert_eq!(attr.unwrap().1, 3);
}

#[test]
fn no_attribute_without_hash_and_bracket() {
    assert!(derive(vec![TokenKind::Hash, id("derive")]).0.is_none());
    assert!(derive(vec![LBracket, TokenKind::Hash]).0.is_none());
    assert!(derive(Vec::new()).0.is_none());
    let toks = lex(vec![TokenKind::Hash, LBracket, id("derive"), LParen, id("Eq"), RParen, RBracket]);
    assert!(parse_derive_attr(&toks, 9).0.is_none());
}

fn ty(kinds: Vec<TokenKind>) -> (ParsedTy, Vec<ParsedError>, usize) {
    parse_type(&lex(kinds), 0).unwrap()
}

/// A compact rendering of a parsed type.
fn show(t: &ParsedTy) -> String {
    let list = |ts: &Vec<ParsedTy>| ts.iter().map(show).collect::<Vec<_>>().join(", ");
    match &t.kind {
        ParsedTyKind::Named { qualifiers, name, args, .. } => {
            let mut text: Vec<&str> = qualifiers.iter().map(|(q, _)| q.as_str()).collect();
            text.push(name.0.as_str());
            let text = text.join(".");
            if args.is_empty() { text } else { format!("{text}<{}>", list(args)) }
        }
        ParsedTyKind::Comptime { inner, .. } => format!("comptime<{}>", show(inner)),
        ParsedTyKind::Tuple { elems } => format!("({})", list(elems)),
        ParsedTyKind::Fn { params, ret, .. } => format!("fn({}) -> {}", list(params), show(ret)),
        ParsedTyKind::Proxy { inner, .. } => format!("@{}", show(inner)),
    }
}

#[test]
fn named_types_take_qualifiers_and_angle_arguments() {
    let (t, errors, end) = ty(vec![id("std"), Dot, id("Map"), Less, id("word"), Comma, id("bool"), Comma, Greater]);
    assert_eq!(show(&t), "std.Map<word, bool>");
    assert!(errors.is_empty());
    assert_eq!(end, 9);
    assert_eq!(t.span, Span { start: 0, end: 85 });
    match &t.kind {
        ParsedTyKind::Named { args_span, .. } => assert_eq!(*args_span, Some(Span { start: 30, end: 85 })),
        other => panic!("unexpected {other:?}"),
    }

    let (t, _, end) = ty(vec![id("word"), Less, Greater]);
    assert_eq!(show(&t), "word");
    assert_eq!(end, 1);
    let (_, _, end) = ty(vec![id("a"), Dot, RParen]);
    assert_eq!(end, 1);
}

#[test]
fn mapping_types_and_the_bare_mapping_name() {
    let (t, errors, end) = ty(vec![id("mapping"), LParen, id("address"), FatArrow, id("word"), RParen]);
    assert_eq!(show(&t), "mapping<address, word>");
    assert!(errors.is_empty());
    assert_eq!(end, 6);

    let (t, errors, end) = ty(vec![id("mapping"), Less, id("word"), Greater]);
    assert_eq!(show(&t), "mapping<word>");
    assert_eq!(end, 4);
    assert_eq!(messages(&errors), vec!["the `mapping` type uses `mapping(Key => Value)`"]);
    assert_eq!(errors[0].span, Span { start: 0, end: 35 });

    let (_, errors, _) = ty(vec![id("m"), Dot, id("mapping")]);
    assert!(errors.is_empty());
}

#[test]
fn function_types_return_one_type_a_tuple_or_unit() {
    let (t, _, end) = ty(vec![Function, LParen, id("a"), Comma, id("b"), RParen, id("returns"), LParen, id("c"), RParen]);
    assert_eq!(show(&t), "fn(a, b) -> c");
    assert_eq!(end, 10);
    let (t, _, _) = ty(vec![Function, LParen, RParen, id("returns"), LParen, id("c"), Comma, id("d"), RParen]);
    assert_eq!(show(&t), "fn() -> (c, d)");
    let (t, _, end) = ty(vec![Function, LParen, id("a"), RParen, id("returns"), Comma]);
    assert_eq!(show(&t), "fn(a) -> ()");
    assert_eq!(end, 4);
    match &t.kind {
        ParsedTyKind::Fn { ret, params_span, .. } => {
            assert_eq!(ret.span, Span { start: 0, end: 35 });
            assert_eq!(*params_span, Span { start: 10, end: 35 });
        }
        other => panic!("unexpected {other:?}"),
    }
}

#[test]
fn tuples_proxies_and_comptime_types() {
    let (t, _, end) = ty(vec![LParen, id("a"), Comma, LParen, RParen, Comma, RParen]);
    assert_eq!(show(&t), "(a, ())");
    assert_eq!(end, 7);
    let (t, _, _) = ty(vec![At, id("T")]);
    assert_eq!(show(&t), "@T");
    assert_eq!(t.span, Span { start: 0, end: 15 });
    let (t, _, end) = ty(vec![id("comptime"), Less, id("word"), Greater]);
    assert_eq!(show(&t), "comptime<word>");
    assert_eq!(end, 4);
    let (t, _, end) = ty(vec![id("comptime"), id("x")]);
    assert_eq!(show(&t), "comptime");
    assert_eq!(end, 1);
}

#[test]
fn hyphenated_type_names_are_reported_and_non_types_rejected() {
    let (_, errors, _) = ty(vec![id("a-b"), Dot, id("c-d")]);
    assert_eq!(
        messages(&errors),
        vec!["identifier `a-b` cannot contain hyphens", "identifier `c-d` cannot contain hyphens"]
    );
    assert!(parse_type(&lex(vec![Comma]), 0).is_none());
    assert!(parse_type(&lex(vec![LParen, id("a")]), 0).is_none());
    assert!(parse_type(&lex(vec![id("a")]), 1).is_none());
}
