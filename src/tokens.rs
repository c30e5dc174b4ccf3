use vstd::prelude::*;

verus! {

/// The lexical kinds of the language.
#[derive(Clone, Copy, PartialEq, Eq, Structural, Debug, Hash)]
pub enum Token {
    Ident,
    Integer,
    Float,
    String,
    Plus,
    Minus,
    Asterisk,
    Div,
    Mod,
    Assign,
    PlusAssign,
    MinusAssign,
    MultAssign,
    DivAssign,
    ModAssign,
    Eq,
    NEq,
    Lt,
    Gt,
    LtE,
    GtE,
    OpenParen,
    CloseParen,
    OpenSquare,
    CloseSquare,
    OpenCurly,
    CloseCurly,
    Comma,
    Semicolon,
    Colon,
    FatArrow,
    True,
    False,
    Let,
    If,
    Else,
    While,
    For,
    Dbg,
    Unknown,
    Eof,
}

/// The text used for a token kind in diagnostics.
pub open spec fn token_name(t: Token) -> Seq<char> {
    match t {
        Token::Ident => "identifier"@,
        Token::Integer => "int literal"@,
        Token::Float => "float literal"@,
        Token::String => "string literal"@,
        Token::Plus => "+"@,
        Token::Minus => "-"@,
        Token::Asterisk => "*"@,
        Token::Div => "/"@,
        Token::Mod => "%"@,
        Token::Assign => "="@,
        Token::PlusAssign => "+="@,
        Token::MinusAssign => "-="@,
        Token::MultAssign => "*="@,
        Token::DivAssign => "/="@,
        Token::ModAssign => "%="@,
        Token::Eq => "=="@,
        Token::NEq => "!="@,
        Token::Lt => "<"@,
        Token::Gt => ">"@,
        Token::LtE => "<="@,
        Token::GtE => ">="@,
        Token::OpenParen => "("@,
        Token::CloseParen => ")"@,
        Token::OpenSquare => "["@,
        Token::CloseSquare => "]"@,
        Token::OpenCurly => "{"@,
        Token::CloseCurly => "}"@,
        Token::Comma => ","@,
        Token::Semicolon => ";"@,
        Token::Colon => ":"@,
        Token::FatArrow => "=>"@,
        Token::True => "true"@,
        Token::False => "false"@,
        Token::Let => "let"@,
        Token::If => "if"@,
        Token::Else => "else"@,
        Token::While => "while"@,
        Token::For => "for"@,
        Token::Dbg => "dbg"@,
        Token::Unknown => "unknown"@,
        Token::Eof => "end of file"@,
    }
}

impl Token {
    pub fn name(self) -> (r: &'static str)
        ensures
            r@ == token_name(self),
    {
        match self {
            Token::Ident => "identifier",
            Token::Integer => "int literal",
            Token::Float => "float literal",
            Token::String => "string literal",
            Token::Plus => "+",
            Token::Minus => "-",
            Token::Asterisk => "*",
            Token::Div => "/",
            Token::Mod => "%",
            Token::Assign => "=",
            Token::PlusAssign => "+=",
            Token::MinusAssign => "-=",
            Token::MultAssign => "*=",
            Token::DivAssign => "/=",
            Token::ModAssign => "%=",
            Token::Eq => "==",
            Token::NEq => "!=",
            Token::Lt => "<",
            Token::Gt => ">",
            Token::LtE => "<=",
            Token::GtE => ">=",
            Token::OpenParen => "(",
            Token::CloseParen => ")",
            Token::OpenSquare => "[",
            Token::CloseSquare => "]",
            Token::OpenCurly => "{",
            Token::CloseCurly => "}",
            Token::Comma => ",",
            Token::Semicolon => ";",
            Token::Colon => ":",
            Token::FatArrow => "=>",
            Token::True => "true",
            Token::False => "false",
            Token::Let => "let",
            Token::If => "if",
            Token::Else => "else",
            Token::While => "while",
            Token::For => "for",
            Token::Dbg => "dbg",
            Token::Unknown => "unknown",
            Token::Eof => "end of file",
        }
    }
}

} // verus!
