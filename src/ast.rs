use vstd::prelude::*;
use crate::operators::{BinOp, UnaryOp};
use crate::span::{Span, Spanned};

verus! {

broadcast use vstd::seq::group_seq_axioms;

/// An expression. Literal text is kept as written; a float literal keeps its
/// digits, to be read as a number by whoever evaluates it.
#[derive(Debug)]
pub enum Expr {
    IntegerLiteral(u128),
    FloatLiteral(String),
    StringLiteral(String),
    Ident(String),
    BinOp(Box<Spanned<Expr>>, BinOp, Box<Spanned<Expr>>),
    UnaryOp(UnaryOp, Box<Spanned<Expr>>),
    Block(Box<Spanned<Block>>),
    Array(Vec<Spanned<Expr>>),
    Tuple(Vec<Spanned<Expr>>),
    Error,
}

#[derive(Debug)]
pub enum Stmt {
    Expr(Expr),
}

/// A braced block: statements ended by `;`, then an optional trailing value.
#[derive(Debug)]
pub struct Block {
    pub normal: Vec<Spanned<Stmt>>,
    pub ret: Option<Spanned<Stmt>>,
}

/// The mathematical form of an expression.
pub enum ExprV {
    IntegerLiteral(u128),
    FloatLiteral(Seq<char>),
    StringLiteral(Seq<char>),
    Ident(Seq<char>),
    BinOp(Box<ExprS>, BinOp, Box<ExprS>),
    UnaryOp(UnaryOp, Box<ExprS>),
    Block(Box<BlockS>),
    Array(Seq<ExprS>),
    Tuple(Seq<ExprS>),
    Error,
}

/// The mathematical form of an expression with its span.
pub struct ExprS {
    pub val: ExprV,
    pub span: Span,
}

/// The mathematical form of a block; each statement is its expression.
pub struct BlockV {
    pub normal: Seq<ExprS>,
    pub ret: Option<ExprS>,
}

pub struct BlockS {
    pub val: BlockV,
    pub span: Span,
}

/// `e` is the expression that `v` describes.
pub open spec fn expr_matches(e: Expr, v: ExprV) -> bool
    decreases v,
{
    match v {
        ExprV::IntegerLiteral(n) => e matches Expr::IntegerLiteral(m) && m == n,
        ExprV::FloatLiteral(s) => e matches Expr::FloatLiteral(t) && t@ == s,
        ExprV::StringLiteral(s) => e matches Expr::StringLiteral(t) && t@ == s,
        ExprV::Ident(s) => e matches Expr::Ident(t) && t@ == s,
        ExprV::BinOp(l, op, r) => e matches Expr::BinOp(el, eop, er) && eop == op
            && sexpr_matches(*el, *l) && sexpr_matches(*er, *r),
        ExprV::UnaryOp(op, x) => e matches Expr::UnaryOp(eop, ex) && eop == op && sexpr_matches(
            *ex,
            *x,
        ),
        ExprV::Block(b) => e matches Expr::Block(eb) && sblock_matches(*eb, *b),
        ExprV::Array(vs) => e matches Expr::Array(es) && es@.len() == vs.len() && forall|i: int|
            0 <= i < vs.len() ==> sexpr_matches(#[trigger] es@[i], vs[i]),
        ExprV::Tuple(vs) => e matches Expr::Tuple(es) && es@.len() == vs.len() && forall|i: int|
            0 <= i < vs.len() ==> sexpr_matches(#[trigger] es@[i], vs[i]),
        ExprV::Error => e is Error,
    }
}

pub open spec fn sexpr_matches(e: Spanned<Expr>, v: ExprS) -> bool
    decreases v,
{
    e.span == v.span && expr_matches(e.val, v.val)
}

pub open spec fn stmt_matches(s: Spanned<Stmt>, v: ExprS) -> bool
    decreases v,
{
    s.span == v.span && match s.val {
        Stmt::Expr(e) => expr_matches(e, v.val),
    }
}

pub open spec fn sblock_matches(b: Spanned<Block>, v: BlockS) -> bool
    decreases v,
{
    &&& b.span == v.span
    &&& b.val.normal@.len() == v.val.normal.len()
    &&& forall|i: int|
        0 <= i < v.val.normal.len() ==> stmt_matches(#[trigger] b.val.normal@[i], v.val.normal[i])
    &&& match v.val.ret {
        Some(r) => b.val.ret matches Some(br) && stmt_matches(br, r),
        None => b.val.ret is None,
    }
}

} // verus!
