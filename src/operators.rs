use vstd::prelude::*;
use crate::tokens::Token;

verus! {

/// How the operators of one precedence level combine.
#[derive(Clone, Copy, PartialEq, Eq, Structural, Debug, Hash)]
pub enum OpType {
    Left,
    Right,
    Unary,
}

/// The infix operators.
#[derive(Clone, Copy, PartialEq, Eq, Structural, Debug, Hash)]
pub enum BinOp {
    Plus,
    Minus,
    Asterisk,
    Div,
    Mod,
}

/// The prefix operators.
#[derive(Clone, Copy, PartialEq, Eq, Structural, Debug, Hash)]
pub enum UnaryOp {
    Minus,
}

/// The number of precedence levels; level 0 binds loosest.
pub const OP_COUNT: usize = 3;

/// The operator table: the kind of each level.
pub open spec fn level_kind(level: int) -> OpType {
    if level == 1 {
        OpType::Unary
    } else {
        OpType::Left
    }
}

/// The operator table: the tokens that each level holds.
pub open spec fn level_has(level: int, t: Token) -> bool {
    if level == 0 {
        t == Token::Plus || t == Token::Minus
    } else if level == 1 {
        t == Token::Minus
    } else if level == 2 {
        t == Token::Asterisk || t == Token::Div || t == Token::Mod
    } else {
        false
    }
}

/// The first level at or above `q` that is not a prefix level.
pub open spec fn infix_from(q: int) -> Option<nat>
    decreases OP_COUNT - q,
{
    if q < 0 || q >= OP_COUNT {
        None
    } else if level_kind(q) != OpType::Unary {
        Some(q as nat)
    } else {
        infix_from(q + 1)
    }
}

/// The next tighter infix level above `level`, if any.
pub open spec fn next_infix_spec(level: int) -> Option<nat> {
    infix_from(level + 1)
}

/// The first prefix level at or above `q` that holds `t`.
pub open spec fn unary_from(t: Token, q: int) -> Option<nat>
    decreases OP_COUNT - q,
{
    if q < 0 || q >= OP_COUNT {
        None
    } else if level_kind(q) == OpType::Unary && level_has(q, t) {
        Some(q as nat)
    } else {
        unary_from(t, q + 1)
    }
}

/// The prefix level of `t`, if it is a prefix operator.
pub open spec fn unary_level_spec(t: Token) -> Option<nat> {
    unary_from(t, 0)
}

/// `t` is an infix operator of exactly `level`.
pub open spec fn is_infix_spec(t: Token, level: int) -> bool {
    0 <= level < OP_COUNT && level_kind(level) != OpType::Unary && level_has(level, t)
}

pub proof fn lemma_infix_from_bounds(q: int)
    ensures
        infix_from(q) matches Some(n) ==> q <= n < OP_COUNT,
    decreases OP_COUNT - q,
{
    if 0 <= q < OP_COUNT && level_kind(q) == OpType::Unary {
        lemma_infix_from_bounds(q + 1);
    }
}

pub proof fn lemma_unary_from_bounds(t: Token, q: int)
    ensures
        unary_from(t, q) matches Some(n) ==> q <= n < OP_COUNT && level_kind(n as int)
            == OpType::Unary && level_has(n as int, t),
    decreases OP_COUNT - q,
{
    if 0 <= q < OP_COUNT && !(level_kind(q) == OpType::Unary && level_has(q, t)) {
        lemma_unary_from_bounds(t, q + 1);
    }
}

/// The kind of a level of the table.
pub fn prec_type(prec: usize) -> (r: OpType)
    requires
        prec < OP_COUNT,
    ensures
        r == level_kind(prec as int),
{
    if prec == 1 {
        OpType::Unary
    } else {
        OpType::Left
    }
}

/// Whether a level of the table holds `t`.
pub fn level_contains(prec: usize, t: Token) -> (r: bool)
    ensures
        r == level_has(prec as int, t),
{
    if prec == 0 {
        t == Token::Plus || t == Token::Minus
    } else if prec == 1 {
        t == Token::Minus
    } else if prec == 2 {
        t == Token::Asterisk || t == Token::Div || t == Token::Mod
    } else {
        false
    }
}

/// The next tighter level above `prec` that is not a prefix level.
pub fn next_infix(prec: usize) -> (r: Option<usize>)
    ensures
        r matches Some(n) ==> next_infix_spec(prec as int) == Some(n as nat),
        r is None ==> next_infix_spec(prec as int) is None,
        r matches Some(n) ==> prec < n < OP_COUNT,
{
    if prec >= OP_COUNT {
        return None;
    }
    let mut next = prec + 1;
    while next < OP_COUNT
        invariant
            prec < next <= OP_COUNT,
            infix_from(next as int) == next_infix_spec(prec as int),
        decreases OP_COUNT - next,
    {
        if prec_type(next) != OpType::Unary {
            return Some(next);
        }
        next = next + 1;
    }
    None
}

/// Whether `op` is an infix operator of exactly level `prec`.
pub fn is_infix_prec(op: Token, prec: usize) -> (r: bool)
    ensures
        r == is_infix_spec(op, prec as int),
{
    let mut i: usize = 0;
    while i < OP_COUNT
        invariant
            i <= OP_COUNT,
            forall|j: int| 0 <= j < i ==> !(j == prec && is_infix_spec(op, j)),
        decreases OP_COUNT - i,
    {
        if prec_type(i) != OpType::Unary && level_contains(i, op) && i == prec {
            return true;
        }
        i = i + 1;
    }
    false
}

/// The prefix level of `op`, if it is a prefix operator.
pub fn unary_prec(op: Token) -> (r: Option<usize>)
    ensures
        r matches Some(n) ==> unary_level_spec(op) == Some(n as nat) && n < OP_COUNT,
        r is None ==> unary_level_spec(op) is None,
{
    let mut i: usize = 0;
    while i < OP_COUNT
        invariant
            i <= OP_COUNT,
            unary_from(op, i as int) == unary_level_spec(op),
        decreases OP_COUNT - i,
    {
        if prec_type(i) == OpType::Unary && level_contains(i, op) {
            return Some(i);
        }
        i = i + 1;
    }
    None
}

/// The infix operator that a token spells.
pub open spec fn bin_op_of(t: Token) -> Option<BinOp> {
    match t {
        Token::Plus => Some(BinOp::Plus),
        Token::Minus => Some(BinOp::Minus),
        Token::Asterisk => Some(BinOp::Asterisk),
        Token::Div => Some(BinOp::Div),
        Token::Mod => Some(BinOp::Mod),
        _ => None,
    }
}

/// The prefix operator that a token spells.
pub open spec fn unary_op_of(t: Token) -> Option<UnaryOp> {
    match t {
        Token::Minus => Some(UnaryOp::Minus),
        _ => None,
    }
}

/// The token that spells an infix operator.
pub open spec fn bin_op_token(op: BinOp) -> Token {
    match op {
        BinOp::Plus => Token::Plus,
        BinOp::Minus => Token::Minus,
        BinOp::Asterisk => Token::Asterisk,
        BinOp::Div => Token::Div,
        BinOp::Mod => Token::Mod,
    }
}

impl Token {
    pub fn to_bin_op(self) -> (r: Option<BinOp>)
        ensures
            r == bin_op_of(self),
    {
        match self {
            Token::Plus => Some(BinOp::Plus),
            Token::Minus => Some(BinOp::Minus),
            Token::Asterisk => Some(BinOp::Asterisk),
            Token::Div => Some(BinOp::Div),
            Token::Mod => Some(BinOp::Mod),
            _ => None,
        }
    }

    pub fn to_unary_op(self) -> (r: Option<UnaryOp>)
        ensures
            r == unary_op_of(self),
    {
        match self {
            Token::Minus => Some(UnaryOp::Minus),
            _ => None,
        }
    }
}

impl BinOp {
    pub fn name(self) -> (r: &'static str)
        ensures
            r@ == crate::tokens::token_name(bin_op_token(self)),
    {
        match self {
            BinOp::Plus => Token::Plus.name(),
            BinOp::Minus => Token::Minus.name(),
            BinOp::Asterisk => Token::Asterisk.name(),
            BinOp::Div => Token::Div.name(),
            BinOp::Mod => Token::Mod.name(),
        }
    }
}

impl UnaryOp {
    pub fn name(self) -> (r: &'static str)
        ensures
            r@ == crate::tokens::token_name(Token::Minus),
    {
        Token::Minus.name()
    }
}

/// Every infix operator of the table has a `BinOp`, and every prefix one a `UnaryOp`.
pub proof fn lemma_table_ops(t: Token, level: int)
    ensures
        is_infix_spec(t, level) ==> bin_op_of(t) is Some,
        unary_level_spec(t) is Some ==> unary_op_of(t) is Some,
{
    lemma_unary_from_bounds(t, 0);
}

} // verus!
