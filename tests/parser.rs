use satukitan::ast::Expr;
use satukitan::parser::{parse_program, parse_single_expr};
use satukitan::SatukitanError;

#[test]
fn parse_simple_call() {
    let program = parse_program("ritas ra ru").expect("parse failed");
    assert_eq!(program.len(), 1);
    match &program[0] {
        Expr::Call { func, args } => {
            match func.as_ref() {
                Expr::Symbol(name) => assert_eq!(name, "ritas"),
                other => panic!("expected function symbol, got {:?}", other),
            }
            assert_eq!(args.len(), 2);
            assert!(matches!(args[0], Expr::Number(2)));
            assert!(matches!(args[1], Expr::Number(1)));
        }
        other => panic!("unexpected expression: {:?}", other),
    }
}

#[test]
fn parse_list_literal() {
    let program = parse_program("[ra ru rya]").expect("parse failed");
    assert_eq!(program.len(), 1);
    match &program[0] {
        Expr::ListLiteral(items) => {
            assert!(matches!(items[0], Expr::Number(2)));
            assert!(matches!(items[1], Expr::Number(1)));
            assert!(matches!(items[2], Expr::Number(6)));
        }
        other => panic!("expected list literal, got {:?}", other),
    }
}

#[test]
fn parse_ignores_comments() {
    let program = parse_program("ritas ra ru  # add\n# comment line\n").expect("parse failed");
    assert_eq!(program.len(), 1);
}

#[test]
fn parse_gakas_two_args() {
    let program = parse_program("gakas x ra").expect("parse failed");
    match &program[0] {
        Expr::Call { args, .. } => {
            assert_eq!(args.len(), 2);
            assert!(matches!(args[0], Expr::Symbol(ref name) if name == "x"));
            assert!(matches!(args[1], Expr::Number(2)));
        }
        other => panic!("expected call, got {:?}", other),
    }
}

#[test]
fn hash_word_is_a_numeral_not_a_comment() {
    let program = parse_program("#ta").expect("parse failed");
    assert!(matches!(program[0], Expr::Number(10)));
    let program = parse_program("ra # note").expect("parse failed");
    assert_eq!(program.len(), 1);
    assert!(matches!(program[0], Expr::Number(2)));
}

#[test]
fn bare_identifier_is_a_symbol_and_words_are_literals() {
    let program = parse_program("add-two\nme ga").expect("parse failed");
    assert_eq!(program.len(), 3);
    assert!(matches!(program[0], Expr::Symbol(ref n) if n == "add-two"));
    assert!(matches!(program[1], Expr::Bool(true)));
    assert!(matches!(program[2], Expr::Bool(false)));
}

#[test]
fn string_escapes_are_resolved() {
    let program = parse_program("\"a\\\"b\\\\c\\nd\\te\"").expect("parse failed");
    match &program[0] {
        Expr::String(s) => assert_eq!(s, "a\"b\\c\nd\te"),
        other => panic!("expected string, got {:?}", other),
    }
}

#[test]
fn unknown_escape_is_rejected() {
    let err = parse_program("\"a\\qb\"").unwrap_err();
    assert!(matches!(err, SatukitanError::Parse(_)));
}

#[test]
fn string_does_not_span_lines() {
    assert!(parse_program("\"ab\ncd\"").is_err());
}

#[test]
fn unclosed_list_reports_end() {
    match parse_program("[ra ru") {
        Err(SatukitanError::Parse(m)) => assert_eq!(m, "unexpected token near '<end>'"),
        other => panic!("expected parse failure, got {:?}", other),
    }
}

#[test]
fn failure_snippet_shows_rest_of_input() {
    match parse_program("ra )") {
        Err(SatukitanError::Parse(m)) => assert_eq!(m, "unexpected token near '\u{2026})'"),
        other => panic!("expected parse failure, got {:?}", other),
    }
    match parse_program(")") {
        Err(SatukitanError::Parse(m)) => assert_eq!(m, "unexpected token near ')'"),
        other => panic!("expected parse failure, got {:?}", other),
    }
}

#[test]
fn call_arguments_stop_at_newline() {
    let program = parse_program("sipus ra\nru").expect("parse failed");
    assert_eq!(program.len(), 2);
    assert!(matches!(program[1], Expr::Number(1)));
}

#[test]
fn lists_nest_and_span_lines() {
    let program = parse_program("(ra\n  [ru ro])").expect("parse failed");
    match &program[0] {
        Expr::List(items) => {
            assert_eq!(items.len(), 2);
            assert!(matches!(items[1], Expr::ListLiteral(ref inner) if inner.len() == 2));
        }
        other => panic!("expected list, got {:?}", other),
    }
}

#[test]
fn single_expression_must_fill_input() {
    assert!(matches!(parse_single_expr("  me"), Ok(Expr::Bool(true))));
    assert!(parse_single_expr("me ga").is_err());
}
