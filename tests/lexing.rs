use shid::lexer::{tokenize, Lexer};
use shid::operators::{is_infix_prec, next_infix, unary_prec, BinOp, UnaryOp};
use shid::span::Span;
use shid::tokens::Token;

fn kinds(text: &str) -> Vec<Token> {
    tokenize(text.as_bytes()).into_iter().map(|(k, _)| k).collect()
}

#[test]
fn peek_twice_does_not_advance() {
    let mut l = Lexer::new("a + 1");
    assert_eq!(l.peek(), Token::Ident);
    assert_eq!(l.peek(), Token::Ident);
    assert_eq!(l.next(), Token::Ident);
    assert_eq!(l.peek(), Token::Plus);
    assert_eq!(l.peek(), Token::Plus);
    assert_eq!(l.next(), Token::Plus);
    assert_eq!(l.next(), Token::Integer);
    assert_eq!(l.span(), Span::new(4, 5));
    assert_eq!(l.slice(), b"1");
}

#[test]
fn end_of_input_repeats() {
    let mut l = Lexer::new("  x ");
    assert_eq!(l.next(), Token::Ident);
    assert_eq!(l.next(), Token::Eof);
    assert_eq!(l.span(), Span::new(4, 4));
    assert_eq!(l.next(), Token::Eof);
    assert_eq!(l.peek(), Token::Eof);
}

#[test]
fn maximal_munch_for_operators() {
    assert_eq!(kinds("== = => != <= >= < > += -= *= /= %="), vec![
        Token::Eq, Token::Assign, Token::FatArrow, Token::NEq, Token::LtE, Token::GtE, Token::Lt,
        Token::Gt, Token::PlusAssign, Token::MinusAssign, Token::MultAssign, Token::DivAssign,
        Token::ModAssign, Token::Eof,
    ]);
}

#[test]
fn keywords_and_identifiers() {
    assert_eq!(kinds("let if else while for dbg true false lettuce _x9"), vec![
        Token::Let, Token::If, Token::Else, Token::While, Token::For, Token::Dbg, Token::True,
        Token::False, Token::Ident, Token::Ident, Token::Eof,
    ]);
}

#[test]
fn numbers_and_strings() {
    let toks = tokenize(b"12 3.5 7. \"a\\\"b\" 4x");
    let ks: Vec<Token> = toks.iter().map(|t| t.0).collect();
    assert_eq!(ks, vec![
        Token::Integer, Token::Float, Token::Float, Token::String, Token::Integer, Token::Ident,
        Token::Eof,
    ]);
    assert_eq!(toks[3].1, Span::new(10, 16));
}

#[test]
fn unknown_characters() {
    assert_eq!(kinds("! @ é"), vec![Token::Unknown, Token::Unknown, Token::Unknown, Token::Eof]);
    let toks = tokenize("é".as_bytes());
    assert_eq!(toks[0].1, Span::new(0, 2));
    assert_eq!(kinds("\"open"), vec![Token::Unknown, Token::Ident, Token::Eof]);
}

#[test]
fn empty_text_is_only_end() {
    assert_eq!(tokenize(b""), vec![(Token::Eof, Span::new(0, 0))]);
}

#[test]
fn token_names() {
    assert_eq!(Token::Ident.name(), "identifier");
    assert_eq!(Token::Eof.name(), "end of file");
    assert_eq!(Token::FatArrow.name(), "=>");
    assert_eq!(BinOp::Asterisk.name(), "*");
    assert_eq!(UnaryOp::Minus.name(), "-");
}

#[test]
fn operator_table_lookups() {
    assert_eq!(next_infix(0), Some(2));
    assert_eq!(next_infix(1), Some(2));
    assert_eq!(next_infix(2), None);
    assert!(is_infix_prec(Token::Plus, 0));
    assert!(!is_infix_prec(Token::Minus, 1));
    assert!(is_infix_prec(Token::Mod, 2));
    assert!(!is_infix_prec(Token::Plus, 2));
    assert_eq!(unary_prec(Token::Minus), Some(1));
    assert_eq!(unary_prec(Token::Plus), None);
    assert_eq!(Token::Div.to_bin_op(), Some(BinOp::Div));
    assert_eq!(Token::Comma.to_bin_op(), None);
    assert_eq!(Token::Minus.to_unary_op(), Some(UnaryOp::Minus));
}
