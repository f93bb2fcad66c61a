use lunarity_contract::ast::{ContractPart, Visibility};
use lunarity_contract::lexer::tokenize;
use lunarity_contract::parser::{parse, Parser, PartResult};
use lunarity_contract::token::{ElementaryTypeName, TokenKind};
use toolshed::list::List;
use toolshed::Arena;

fn nth<'a, T>(l: &List<'a, T>, i: usize) -> &'a T {
    l.iter().nth(i).unwrap()
}

fn errors_of(src: &str) -> usize {
    let arena = Arena::new();
    match parse(&arena, src.as_bytes()) {
        Ok(_) => 0,
        Err(es) => es.len(),
    }
}

#[test]
fn contract_span_runs_from_keyword_past_closing_brace() {
    let src = "  contract A is B { int32 x; }  ";
    let arena = Arena::new();
    let units = parse(&arena, src.as_bytes()).unwrap();
    assert_eq!(units.len(), 1);
    assert_eq!(units[0].start, 2);
    assert_eq!(units[0].end, 30);
    assert_eq!(&src[units[0].start..units[0].end], "contract A is B { int32 x; }");
}

#[test]
fn slicing_by_spans_gives_the_consumed_text() {
    let src = "contract Foo { event E(uint256 indexed a, address b) anonymous; bool private c; }";
    let arena = Arena::new();
    let units = parse(&arena, src.as_bytes()).unwrap();
    let c = &units[0];
    assert_eq!(&src[c.value.name.start..c.value.name.end], "Foo");
    let e = nth(&c.value.body, 0);
    assert_eq!(&src[e.start..e.end], "event E(uint256 indexed a, address b) anonymous;");
    match &e.value {
        ContractPart::EventDefinition(ev) => {
            let p = nth(&ev.params, 0);
            assert_eq!(&src[p.start..p.end], "uint256 indexed a");
            assert_eq!(p.value.ty.value, ElementaryTypeName::Uint(32));
            assert_eq!(&src[p.value.ty.start..p.value.ty.end], "uint256");
            let q = nth(&ev.params, 1);
            assert_eq!(&src[q.start..q.end], "address b");
            assert_eq!(q.value.name.value, b"b");
        },
        _ => panic!("expected an event"),
    }
    let v = nth(&c.value.body, 1);
    assert_eq!(&src[v.start..v.end], "bool private c;");
    match &v.value {
        ContractPart::StateVariableDeclaration(s) => {
            assert_eq!(s.visibility, Visibility::Private);
            assert_eq!(s.init, None);
        },
        _ => panic!("expected a state variable"),
    }
}

#[test]
fn trailing_comma_in_event_parameters_is_an_error() {
    assert_eq!(errors_of("contract Foo { event E(int32 a, ); }"), 1);
    assert_eq!(errors_of("contract Foo { event E(int32 a); }"), 0);
}

#[test]
fn trailing_comma_in_inherits_is_an_error() {
    assert_eq!(errors_of("contract Foo is Bar, { }"), 1);
}

#[test]
fn missing_tokens_are_errors() {
    assert_eq!(errors_of("contract { }"), 1);
    assert_eq!(errors_of("contract Foo }"), 1);
    assert_eq!(errors_of("contract Foo {"), 1);
    assert_eq!(errors_of("contract Foo { int32 ; }"), 1);
    assert_eq!(errors_of("contract Foo { int32 x }"), 1);
    assert_eq!(errors_of("contract Foo { event E; }"), 1);
    assert_eq!(errors_of("contract Foo { event E() }"), 1);
    assert_eq!(errors_of("contract Foo { event E(int32) ; }"), 1);
    assert_eq!(errors_of("contract Foo { } }"), 1);
}

#[test]
fn error_records_the_token_found() {
    let arena = Arena::new();
    let errs = parse(&arena, "contract Foo { event E(int32 a, ); }".as_bytes()).unwrap_err();
    assert_eq!(errs[0].found, TokenKind::ParenClose);
    assert_eq!(errs[0].start, 32);
    assert_eq!(errs[0].end, 33);
    assert_eq!(errs[0].expected, None);
}

#[test]
fn error_names_the_expected_token() {
    let arena = Arena::new();
    let errs = parse(&arena, "contract Foo }".as_bytes()).unwrap_err();
    assert_eq!(errs.len(), 1);
    assert_eq!(errs[0].found, TokenKind::BraceClose);
    assert_eq!(errs[0].expected, Some(TokenKind::BraceOpen));
    assert_eq!((errs[0].start, errs[0].end), (13, 14));
    let errs = parse(&arena, "contract Foo {".as_bytes()).unwrap_err();
    assert_eq!(errs[0].found, TokenKind::EndOfProgram);
    assert_eq!(errs[0].expected, Some(TokenKind::BraceClose));
    assert_eq!((errs[0].start, errs[0].end), (14, 14));
}

#[test]
fn keywords_are_not_identifiers() {
    let toks = tokenize("contract is event anonymous indexed public internal private constant".as_bytes());
    let kinds: Vec<TokenKind> = toks.iter().map(|t| t.kind).collect();
    assert_eq!(kinds, vec![
        TokenKind::KeywordContract,
        TokenKind::KeywordIs,
        TokenKind::DeclarationEvent,
        TokenKind::KeywordAnonymous,
        TokenKind::KeywordIndexed,
        TokenKind::KeywordPublic,
        TokenKind::KeywordInternal,
        TokenKind::KeywordPrivate,
        TokenKind::KeywordConstant,
    ]);
    assert_eq!(errors_of("contract is {}"), 1);
}

#[test]
fn empty_source_has_no_contracts() {
    let arena = Arena::new();
    assert_eq!(parse(&arena, "".as_bytes()), Ok(vec![]));
    assert_eq!(parse(&arena, "  \n\t ".as_bytes()), Ok(vec![]));
}

#[test]
fn consecutive_contracts_parse_in_order() {
    let src = "contract A {} contract B { int x; } contract C is A, B {}";
    let arena = Arena::new();
    let units = parse(&arena, src.as_bytes()).unwrap();
    assert_eq!(units.len(), 3);
    assert_eq!(units[0].value.name.value, b"A");
    assert_eq!((units[0].start, units[0].end), (0, 13));
    assert_eq!(units[1].value.name.value, b"B");
    assert_eq!((units[1].start, units[1].end), (14, 35));
    assert_eq!(units[2].value.name.value, b"C");
    assert_eq!((units[2].start, units[2].end), (36, 57));
    assert_eq!(units[2].value.inherits.iter().count(), 2);
}

#[test]
fn visibility_keywords() {
    let src = "contract V { int a; int public b; int internal c; int private d; int constant e; }";
    let arena = Arena::new();
    let units = parse(&arena, src.as_bytes()).unwrap();
    let body = &units[0].value.body;
    let expected = [
        Visibility::Unspecified,
        Visibility::Public,
        Visibility::Internal,
        Visibility::Private,
        Visibility::Constant,
    ];
    assert_eq!(body.iter().count(), 5);
    for (i, v) in expected.iter().enumerate() {
        match &nth(body, i).value {
            ContractPart::StateVariableDeclaration(s) => assert_eq!(s.visibility, *v),
            _ => panic!("expected a state variable"),
        }
    }
}

#[test]
fn contract_part_stops_without_consuming() {
    let arena = Arena::new();
    let mut p = Parser::new(&arena, "} int32 x;".as_bytes());
    assert_eq!(p.contract_part(), PartResult::End);
    assert_eq!(p.pos, 0);
    assert!(p.errors.is_empty());
}

#[test]
fn contract_part_reports_failure() {
    let arena = Arena::new();
    let mut p = Parser::new(&arena, "int32 public ;".as_bytes());
    assert_eq!(p.contract_part(), PartResult::Failed);
    assert_eq!(p.errors.len(), 1);
}

#[test]
fn contract_definition_on_its_own() {
    let arena = Arena::new();
    let mut p = Parser::new(&arena, "contract Foo {} trailing".as_bytes());
    let c = p.contract_definition().unwrap();
    assert_eq!((c.start, c.end), (0, 15));
    assert_eq!(p.pos, 4);
    assert!(p.errors.is_empty());
}

#[test]
fn tokenizer_reads_elementary_types() {
    let src = "int8 int256 uint uint16 bytes bytes1 bytes32 byte bool address string int7 bytes33 Foo_1";
    let kinds: Vec<TokenKind> = tokenize(src.as_bytes()).iter().map(|t| t.kind).collect();
    assert_eq!(kinds, vec![
        TokenKind::ElementaryType(ElementaryTypeName::Int(1)),
        TokenKind::ElementaryType(ElementaryTypeName::Int(32)),
        TokenKind::ElementaryType(ElementaryTypeName::Uint(32)),
        TokenKind::ElementaryType(ElementaryTypeName::Uint(2)),
        TokenKind::ElementaryType(ElementaryTypeName::Bytes),
        TokenKind::ElementaryType(ElementaryTypeName::Byte(1)),
        TokenKind::ElementaryType(ElementaryTypeName::Byte(32)),
        TokenKind::ElementaryType(ElementaryTypeName::Byte(1)),
        TokenKind::ElementaryType(ElementaryTypeName::Bool),
        TokenKind::ElementaryType(ElementaryTypeName::Address),
        TokenKind::ElementaryType(ElementaryTypeName::String),
        TokenKind::Identifier,
        TokenKind::Identifier,
        TokenKind::Identifier,
    ]);
}

#[test]
fn tokenizer_spans_and_punctuation() {
    let toks = tokenize(" {}(),; # x".as_bytes());
    let got: Vec<(TokenKind, usize, usize)> = toks.iter().map(|t| (t.kind, t.start, t.end)).collect();
    assert_eq!(got, vec![
        (TokenKind::BraceOpen, 1, 2),
        (TokenKind::BraceClose, 2, 3),
        (TokenKind::ParenOpen, 3, 4),
        (TokenKind::ParenClose, 4, 5),
        (TokenKind::Comma, 5, 6),
        (TokenKind::Semicolon, 6, 7),
        (TokenKind::UnexpectedToken, 8, 9),
        (TokenKind::Identifier, 10, 11),
    ]);
}

#[test]
fn stray_top_level_token_is_an_error() {
    assert_eq!(errors_of("contract A {} event"), 1);
}

#[test]
fn tokenizer_rejects_sizes_outside_the_ranges() {
    let src = "int264 int12 int08 bytes0 bytes33 uint0 uint256 bytes7";
    let kinds: Vec<TokenKind> = tokenize(src.as_bytes()).iter().map(|t| t.kind).collect();
    assert_eq!(kinds, vec![
        TokenKind::Identifier,
        TokenKind::Identifier,
        TokenKind::Identifier,
        TokenKind::Identifier,
        TokenKind::Identifier,
        TokenKind::Identifier,
        TokenKind::ElementaryType(ElementaryTypeName::Uint(32)),
        TokenKind::ElementaryType(ElementaryTypeName::Byte(7)),
    ]);
}

#[test]
fn tokenizer_splits_words_at_punctuation() {
    let toks = tokenize("contract{is,event;".as_bytes());
    let got: Vec<(TokenKind, usize, usize)> = toks.iter().map(|t| (t.kind, t.start, t.end)).collect();
    assert_eq!(got, vec![
        (TokenKind::KeywordContract, 0, 8),
        (TokenKind::BraceOpen, 8, 9),
        (TokenKind::KeywordIs, 9, 11),
        (TokenKind::Comma, 11, 12),
        (TokenKind::DeclarationEvent, 12, 17),
        (TokenKind::Semicolon, 17, 18),
    ]);
}

#[test]
fn dangling_comma_error_is_at_the_following_token() {
    let arena = Arena::new();
    let errs = parse(&arena, "contract A { event E(bool a, int8 b,) anonymous; }".as_bytes()).unwrap_err();
    assert_eq!(errs.len(), 1);
    assert_eq!(errs[0].found, TokenKind::ParenClose);
    assert_eq!((errs[0].start, errs[0].end), (36, 37));
    assert_eq!(errs[0].expected, None);
}

#[test]
fn missing_parameter_name_error_expects_an_identifier() {
    let arena = Arena::new();
    let errs = parse(&arena, "contract A { event E(bool indexed); }".as_bytes()).unwrap_err();
    assert_eq!(errs.len(), 1);
    assert_eq!(errs[0].found, TokenKind::ParenClose);
    assert_eq!(errs[0].expected, Some(TokenKind::Identifier));
    assert_eq!((errs[0].start, errs[0].end), (33, 34));
}
