use test_generator::expr::ListExpr;
use test_generator::parse::{
    extract_fn_ident, parse_attr_input, parse_expand_list_input, parse_expand_paths_input,
    parse_glob_expand_input, ParseError,
};

#[test]
fn attr_accepts_one_string_literal() {
    assert_eq!(parse_attr_input("\"res/*/input.txt\""), Ok("res/*/input.txt".to_string()));
    assert_eq!(parse_attr_input("  \"a\"  "), Ok("a".to_string()));
}

#[test]
fn attr_resolves_escapes() {
    assert_eq!(parse_attr_input("\"a\\nb\\t\\\\\\\"\""), Ok("a\nb\t\\\"".to_string()));
}

#[test]
fn attr_rejects_extra_input() {
    assert_eq!(parse_attr_input("\"a\" \"b\""), Err(ParseError::TrailingTokens));
    assert_eq!(parse_attr_input("42 extra"), Err(ParseError::TrailingTokens));
}

#[test]
fn attr_rejects_non_string_literals() {
    assert_eq!(parse_attr_input("42"), Err(ParseError::ExpectedString));
    assert_eq!(parse_attr_input("'c'"), Err(ParseError::ExpectedString));
    assert_eq!(parse_attr_input("3.25"), Err(ParseError::ExpectedString));
    assert_eq!(parse_attr_input("true"), Err(ParseError::ExpectedString));
}

#[test]
fn attr_rejects_non_literals() {
    assert_eq!(parse_attr_input("foo"), Err(ParseError::UnexpectedToken));
    assert_eq!(parse_attr_input(""), Err(ParseError::UnexpectedEnd));
    assert_eq!(parse_attr_input("\"unterminated"), Err(ParseError::BadToken));
    assert_eq!(parse_attr_input("@"), Err(ParseError::BadToken));
}

#[test]
fn attr_rejects_oversized_integers() {
    assert_eq!(parse_attr_input("18446744073709551615"), Err(ParseError::ExpectedString));
    assert_eq!(parse_attr_input("18446744073709551616"), Err(ParseError::NumberTooLarge));
}

#[test]
fn glob_expand_input_is_pattern_then_ident() {
    assert_eq!(
        parse_glob_expand_input("\"res/*\"; test_exists"),
        Ok(("res/*".to_string(), "test_exists".to_string()))
    );
    assert_eq!(parse_glob_expand_input("\"res/*\" test_exists"), Err(ParseError::UnexpectedToken));
    assert_eq!(parse_glob_expand_input("\"res/*\";"), Err(ParseError::UnexpectedEnd));
    assert_eq!(parse_glob_expand_input("42; f"), Err(ParseError::ExpectedString));
}

#[test]
fn expand_paths_input_is_ident_then_pattern() {
    assert_eq!(
        parse_expand_paths_input("test_exists; \"res/*\""),
        Ok(("test_exists".to_string(), "res/*".to_string()))
    );
    assert_eq!(parse_expand_paths_input("\"res/*\"; f"), Err(ParseError::UnexpectedToken));
    assert_eq!(parse_expand_paths_input("f; \"a\"; g"), Err(ParseError::TrailingTokens));
}

#[test]
fn expand_list_input_parses_scalars() {
    let (name, elems) = parse_expand_list_input("test_size; [ 10, 100, 1000 ]").unwrap();
    assert_eq!(name, "test_size");
    assert_eq!(elems.len(), 3);
    assert!(matches!(elems[0], ListExpr::IntLit(10)));
    assert!(matches!(elems[1], ListExpr::IntLit(100)));
    assert!(matches!(elems[2], ListExpr::IntLit(1000)));
}

#[test]
fn expand_list_input_parses_nested_arrays() {
    let (_, elems) = parse_expand_list_input("t; [ [1, 2], [3] ]").unwrap();
    assert_eq!(elems.len(), 2);
    match &elems[0] {
        ListExpr::Array(inner) => {
            assert_eq!(inner.len(), 2);
            assert!(matches!(inner[0], ListExpr::IntLit(1)));
        },
        other => panic!("expected an array, got {:?}", other),
    }
}

#[test]
fn expand_list_input_parses_references_and_paths() {
    let (_, elems) = parse_expand_list_input("t; [ &VEC1, std::u8::MAX, ::root ]").unwrap();
    assert_eq!(elems.len(), 3);
    match &elems[0] {
        ListExpr::Reference(inner) => match &**inner {
            ListExpr::PathExpr { leading_colon, segments } => {
                assert!(!leading_colon);
                assert_eq!(segments.len(), 1);
                assert_eq!(segments[0], "VEC1".chars().collect::<Vec<char>>());
            },
            other => panic!("expected a path, got {:?}", other),
        },
        other => panic!("expected a reference, got {:?}", other),
    }
    match &elems[1] {
        ListExpr::PathExpr { leading_colon, segments } => {
            assert!(!leading_colon);
            assert_eq!(segments.len(), 3);
        },
        other => panic!("expected a path, got {:?}", other),
    }
    match &elems[2] {
        ListExpr::PathExpr { leading_colon, .. } => assert!(leading_colon),
        other => panic!("expected a path, got {:?}", other),
    }
}

#[test]
fn expand_list_input_parses_string_char_float() {
    let (_, elems) = parse_expand_list_input("t; [ \"hallo\", 'x', 3.25 ]").unwrap();
    assert!(matches!(&elems[0], ListExpr::StrLit(s) if *s == "hallo".chars().collect::<Vec<char>>()));
    assert!(matches!(&elems[1], ListExpr::CharLit('x')));
    assert!(matches!(&elems[2], ListExpr::FloatLit(t) if *t == "3.25".chars().collect::<Vec<char>>()));
}

#[test]
fn expand_list_input_allows_trailing_comma() {
    let (_, elems) = parse_expand_list_input("t; [ 1, 2, ]").unwrap();
    assert_eq!(elems.len(), 2);
}

#[test]
fn expand_list_input_needs_an_array() {
    assert!(matches!(parse_expand_list_input("t; 10"), Err(ParseError::ExpectedArray)));
    assert!(matches!(parse_expand_list_input("t; [ true ]"), Err(ParseError::UnexpectedToken)));
    assert!(matches!(parse_expand_list_input("t; [ 1 2 ]"), Err(ParseError::UnexpectedToken)));
    assert!(matches!(parse_expand_list_input("t; [ 1, 2"), Err(ParseError::UnexpectedEnd)));
}

#[test]
fn fn_ident_is_read_from_the_item() {
    assert_eq!(
        extract_fn_ident("#[allow(dead_code)]\npub fn verify_resource(r: &str) {}"),
        Some("verify_resource".to_string())
    );
    assert_eq!(extract_fn_ident("fn  spaced () {}"), Some("spaced".to_string()));
    assert_eq!(extract_fn_ident("struct NotAFunction;"), None);
    assert_eq!(extract_fn_ident("infn x"), None);
}
