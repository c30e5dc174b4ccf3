use shid::ast::{Block, Expr, Stmt};
use shid::error::ParserError;
use shid::operators::{BinOp, UnaryOp};
use shid::parser::Parser;
use shid::sources::{Source, SourceMap};
use shid::span::{Span, Spanned};
use shid::tokens::Token;

fn parse_expr_of(text: &str) -> (Spanned<Expr>, Vec<ParserError>) {
    let mut sources = SourceMap::new();
    let mut p = Parser::new(Source::new("test".to_string(), text.to_string()), &mut sources);
    let e = p.parse_expr();
    (e, p.errors)
}

fn parse_program_of(text: &str) -> (Spanned<Block>, Vec<ParserError>) {
    let mut sources = SourceMap::new();
    let mut p = Parser::new(Source::new("test".to_string(), text.to_string()), &mut sources);
    let b = p.parse_cock();
    (b, p.errors)
}

fn sp(start: usize, end: usize) -> Span {
    Span::new(start, end)
}

fn int_of(e: &Spanned<Expr>) -> u128 {
    match &e.val {
        Expr::IntegerLiteral(v) => *v,
        other => panic!("not an integer: {:?}", other),
    }
}

fn stmt_int(s: &Spanned<Stmt>) -> u128 {
    match &s.val {
        Stmt::Expr(Expr::IntegerLiteral(v)) => *v,
        other => panic!("not an integer statement: {:?}", other),
    }
}

fn bin_of(e: &Spanned<Expr>) -> (&Spanned<Expr>, BinOp, &Spanned<Expr>) {
    match &e.val {
        Expr::BinOp(l, op, r) => (l, *op, r),
        other => panic!("not a binary operation: {:?}", other),
    }
}

#[test]
fn integer_literal_round_trip() {
    let (e, errs) = parse_expr_of("42");
    assert_eq!(int_of(&e), 42);
    assert_eq!(e.span, sp(0, 2));
    assert!(errs.is_empty());
}

#[test]
fn float_literal_round_trip() {
    let (e, errs) = parse_expr_of("3.14");
    match &e.val {
        Expr::FloatLiteral(s) => assert_eq!(s.parse::<f64>().unwrap(), 3.14),
        other => panic!("not a float: {:?}", other),
    }
    assert_eq!(e.span, sp(0, 4));
    assert!(errs.is_empty());
}

#[test]
fn multiplication_binds_tighter() {
    let (e, errs) = parse_expr_of("1+2*3");
    assert_eq!(e.span, sp(0, 5));
    let (l, op, r) = bin_of(&e);
    assert_eq!(int_of(l), 1);
    assert_eq!(op, BinOp::Plus);
    let (rl, rop, rr) = bin_of(r);
    assert_eq!((int_of(rl), rop, int_of(rr)), (2, BinOp::Asterisk, 3));
    assert_eq!(r.span, sp(2, 5));
    assert!(errs.is_empty());
}

#[test]
fn subtraction_is_left_associative() {
    let (e, errs) = parse_expr_of("1-2-3");
    let (l, op, r) = bin_of(&e);
    assert_eq!(op, BinOp::Minus);
    assert_eq!(int_of(r), 3);
    let (ll, lop, lr) = bin_of(l);
    assert_eq!((int_of(ll), lop, int_of(lr)), (1, BinOp::Minus, 2));
    assert_eq!(l.span, sp(0, 3));
    assert_eq!(e.span, sp(0, 5));
    assert!(errs.is_empty());
}

#[test]
fn unary_minus_binds_tighter_than_plus() {
    let (e, errs) = parse_expr_of("-1+2");
    let (l, op, r) = bin_of(&e);
    assert_eq!(op, BinOp::Plus);
    assert_eq!(int_of(r), 2);
    match &l.val {
        Expr::UnaryOp(UnaryOp::Minus, x) => assert_eq!(int_of(x), 1),
        other => panic!("not a negation: {:?}", other),
    }
    assert_eq!(l.span, sp(0, 2));
    assert!(errs.is_empty());
}

#[test]
fn parenthesised_single_is_not_tuple() {
    let (e, errs) = parse_expr_of("(1)");
    assert_eq!(int_of(&e), 1);
    assert_eq!(e.span, sp(0, 3));
    assert!(errs.is_empty());
}

#[test]
fn pair_is_tuple() {
    let (e, errs) = parse_expr_of("(1,2)");
    match &e.val {
        Expr::Tuple(items) => {
            assert_eq!(items.len(), 2);
            assert_eq!(int_of(&items[0]), 1);
            assert_eq!(int_of(&items[1]), 2);
        },
        other => panic!("not a tuple: {:?}", other),
    }
    assert_eq!(e.span, sp(0, 5));
    assert!(errs.is_empty());
}

#[test]
fn trailing_comma_makes_one_tuple() {
    let (e, errs) = parse_expr_of("(1,)");
    match &e.val {
        Expr::Tuple(items) => {
            assert_eq!(items.len(), 1);
            assert_eq!(int_of(&items[0]), 1);
        },
        other => panic!("not a tuple: {:?}", other),
    }
    assert!(errs.is_empty());
}

#[test]
fn block_with_trailing_value() {
    let (b, errs) = parse_program_of("{1;2}");
    assert_eq!(b.val.normal.len(), 1);
    assert_eq!(stmt_int(&b.val.normal[0]), 1);
    assert_eq!(stmt_int(b.val.ret.as_ref().unwrap()), 2);
    assert_eq!(b.span, sp(0, 5));
    assert!(errs.is_empty());
}

#[test]
fn block_of_statements_only() {
    let (b, errs) = parse_program_of("{1;2;}");
    assert_eq!(b.val.normal.len(), 2);
    assert_eq!(stmt_int(&b.val.normal[0]), 1);
    assert_eq!(stmt_int(&b.val.normal[1]), 2);
    assert!(b.val.ret.is_none());
    assert!(errs.is_empty());
}

#[test]
fn block_missing_close_brace() {
    let (b, errs) = parse_program_of("{1;2");
    assert_eq!(errs.len(), 1);
    match &errs[0] {
        ParserError::Expected { expected, found, area } => {
            assert_eq!(expected, "`}`");
            assert_eq!(*found, Token::Eof);
            assert_eq!(area.span, sp(4, 4));
        },
    }
    assert_eq!(stmt_int(b.val.ret.as_ref().unwrap()), 2);
}

#[test]
fn missing_operand_is_recovered() {
    let (e, errs) = parse_expr_of("1+");
    assert_eq!(errs.len(), 1);
    match &errs[0] {
        ParserError::Expected { expected, found, area } => {
            assert_eq!(expected, "expression");
            assert_eq!(*found, Token::Eof);
            assert_eq!(area.span, sp(2, 2));
        },
    }
    let (l, op, r) = bin_of(&e);
    assert_eq!((int_of(l), op), (1, BinOp::Plus));
    assert!(matches!(r.val, Expr::Error));
    assert_eq!(r.span, sp(2, 2));
    assert_eq!(e.span, sp(0, 2));
}

#[test]
fn array_literal() {
    let (e, errs) = parse_expr_of("[1, 2, 3]");
    match &e.val {
        Expr::Array(items) => {
            let v: Vec<u128> = items.iter().map(int_of).collect();
            assert_eq!(v, vec![1, 2, 3]);
        },
        other => panic!("not an array: {:?}", other),
    }
    assert_eq!(e.span, sp(0, 9));
    assert!(errs.is_empty());
}

#[test]
fn empty_array_and_missing_bracket() {
    let (e, errs) = parse_expr_of("[]");
    assert!(matches!(&e.val, Expr::Array(items) if items.is_empty()));
    assert!(errs.is_empty());
    let (_, errs) = parse_expr_of("[1 2");
    assert_eq!(errs.len(), 1);
}

#[test]
fn identifiers_and_strings_keep_their_text() {
    let (e, errs) = parse_expr_of("abc * \"hi\"");
    let (l, op, r) = bin_of(&e);
    assert_eq!(op, BinOp::Asterisk);
    assert!(matches!(&l.val, Expr::Ident(s) if s == "abc"));
    assert!(matches!(&r.val, Expr::StringLiteral(s) if s == "\"hi\""));
    assert!(errs.is_empty());
}

#[test]
fn nested_block_expression() {
    let (e, errs) = parse_expr_of("{1} + 2");
    let (l, _, _) = bin_of(&e);
    match &l.val {
        Expr::Block(b) => {
            assert_eq!(stmt_int(b.val.ret.as_ref().unwrap()), 1);
            assert_eq!(b.span, sp(0, 3));
        },
        other => panic!("not a block: {:?}", other),
    }
    assert_eq!(l.span, sp(0, 3));
    assert!(errs.is_empty());
}

#[test]
fn integer_too_large_is_reported() {
    let (e, errs) = parse_expr_of("340282366920938463463374607431768211456");
    assert!(matches!(e.val, Expr::Error));
    assert_eq!(errs.len(), 1);
    let (e, errs) = parse_expr_of("340282366920938463463374607431768211455");
    assert_eq!(int_of(&e), u128::MAX);
    assert!(errs.is_empty());
}

#[test]
fn unexpected_token_is_reported() {
    let (e, errs) = parse_expr_of(")");
    assert!(matches!(e.val, Expr::Error));
    assert_eq!(e.span, sp(0, 1));
    match &errs[0] {
        ParserError::Expected { expected, found, .. } => {
            assert_eq!(expected, "expression");
            assert_eq!(*found, Token::CloseParen);
        },
    }
}

#[test]
fn trailing_garbage_after_program() {
    let (_, errs) = parse_program_of("{1} 2");
    assert_eq!(errs.len(), 1);
    match &errs[0] {
        ParserError::Expected { expected, found, .. } => {
            assert_eq!(expected, "`end of file`");
            assert_eq!(*found, Token::Integer);
        },
    }
}

#[test]
fn getters_show_errors_warnings_and_source() {
    let mut sources = SourceMap::new();
    let mut p = Parser::new(Source::new("t".to_string(), "1+".to_string()), &mut sources);
    assert!(p.errors().is_empty());
    assert!(p.warnings().is_empty());
    let k = p.src();
    p.parse_expr();
    assert_eq!(p.errors().len(), 1);
    match &p.errors()[0] {
        ParserError::Expected { area, .. } => assert_eq!(area.src, k),
    }
    assert!(p.warnings().is_empty());
}

#[test]
fn list_parse_after_opening_token() {
    let mut sources = SourceMap::new();
    let mut p = Parser::new(Source::new("t".to_string(), "1, 2, ]".to_string()), &mut sources);
    let items = p.list_parse(Token::Comma, Token::CloseSquare);
    let v: Vec<u128> = items.iter().map(int_of).collect();
    assert_eq!(v, vec![1, 2]);
    assert!(p.errors().is_empty());
}
