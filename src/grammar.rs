use vstd::prelude::*;
use crate::ast::{BlockS, BlockV, ExprS, ExprV};
use crate::operators::{
    bin_op_of, is_infix_spec, lemma_infix_from_bounds, level_kind, next_infix_spec, unary_level_spec,
    unary_op_of, OpType, OP_COUNT,
};
use crate::span::{span_union, Span};
use crate::tokens::{token_name, Token};

verus! {

/// The text that a token's bytes decode to.
pub uninterp spec fn utf8_text(b: Seq<u8>) -> Seq<char>;

/// Relies on String::from_utf8_lossy: the result depends on the bytes alone,
/// and ASCII bytes decode to the characters with the same codes.
#[verifier::external_body]
pub(crate) fn text_of(b: &[u8]) -> (r: String)
    ensures
        r@ == utf8_text(b@),
        (forall|i: int| 0 <= i < b@.len() ==> b@[i] < 128) ==> r@ == ascii_text(b@),
{
    String::from_utf8_lossy(b).into_owned()
}

/// The characters whose codes are the bytes of `b`: the text of ASCII bytes.
pub open spec fn ascii_text(b: Seq<u8>) -> Seq<char> {
    Seq::new(b.len(), |i: int| b[i] as char)
}

/// A recorded "Expected X, found Y" diagnostic.
pub struct ErrV {
    pub expected: Seq<char>,
    pub found: Token,
    pub span: Span,
}

/// What a parse reads: the tokens of a text (the last one `Eof`) and the text.
pub struct Ctx {
    pub toks: Seq<(Token, Span)>,
    pub text: Seq<u8>,
}

/// Where a parse stands: the index of the next token, the span of the last
/// token consumed, and the diagnostics recorded so far.
pub struct PState {
    pub idx: int,
    pub last: Span,
    pub errs: Seq<ErrV>,
}

/// The next token; the last token of the sequence reads as `Eof` forever.
pub open spec fn peek(c: Ctx, st: PState) -> Token {
    if 0 <= st.idx < c.toks.len() - 1 {
        c.toks[st.idx].0
    } else {
        Token::Eof
    }
}

pub open spec fn peek_span(c: Ctx, st: PState) -> Span {
    c.toks[st.idx].1
}

/// Consumes the next token; `Eof` is consumed without moving.
pub open spec fn advance(c: Ctx, st: PState) -> PState {
    PState {
        idx: if peek(c, st) != Token::Eof { st.idx + 1 } else { st.idx },
        last: peek_span(c, st),
        errs: st.errs,
    }
}

/// Records that `expected` was wanted where the next token stands.
pub open spec fn record(c: Ctx, st: PState, expected: Seq<char>) -> PState {
    PState {
        errs: st.errs.push(ErrV { expected, found: peek(c, st), span: peek_span(c, st) }),
        ..st
    }
}

/// Consumes `tok` if it comes next, else records that it was expected.
pub open spec fn expect(c: Ctx, st: PState, tok: Token, name: Seq<char>) -> PState {
    if peek(c, st) == tok {
        advance(c, st)
    } else {
        record(c, st, name)
    }
}

/// A token's name in backquotes.
pub open spec fn quoted(t: Token) -> Seq<char> {
    seq!['`'] + token_name(t) + seq!['`']
}

pub open spec fn expect_tok(c: Ctx, st: PState, tok: Token) -> PState {
    expect(c, st, tok, quoted(tok))
}

pub open spec fn digit_value(b: u8) -> int {
    if 48 <= b <= 57 {
        b - 48
    } else {
        0
    }
}

/// The value of a decimal numeral, if it fits in a `u128`.
pub open spec fn decimal(w: Seq<u8>) -> Option<u128>
    decreases w.len(),
{
    if w.len() == 0 {
        Some(0)
    } else {
        match decimal(w.drop_last()) {
            Some(p) => {
                let v = p * 10 + digit_value(w.last());
                if v <= u128::MAX {
                    Some(v as u128)
                } else {
                    None
                }
            },
            None => None,
        }
    }
}

pub open spec fn token_text(c: Ctx, sp: Span) -> Seq<u8> {
    c.text.subrange(sp.start as int, sp.end as int)
}

pub open spec fn remaining(c: Ctx, st: PState) -> nat {
    if st.idx < c.toks.len() {
        (c.toks.len() - st.idx) as nat
    } else {
        0
    }
}

pub open spec fn op_rank(prec: int) -> nat {
    if prec < 0 {
        (2 * OP_COUNT + 4) as nat
    } else if prec < OP_COUNT {
        (2 * (OP_COUNT - prec) + 2) as nat
    } else {
        2
    }
}

pub open spec fn list_rank() -> nat {
    (2 * OP_COUNT + 10) as nat
}

pub open spec fn leaf(v: ExprV, sp: Span) -> ExprS {
    ExprS { val: v, span: sp }
}

// The parse functions below are ranked by the tokens left and then by how
// deep in the precedence chain they stand. Where one of them continues from
// the state that a sub-parse returned, it first checks that the sub-parse did
// not move back; it never does (the parser's postconditions show it), and the
// check is what lets the definition be seen to terminate.

/// A primary expression: a literal, an identifier, a group or tuple, an array,
/// a block, or a prefix operator applied to what binds tighter than it.
/// Anything else is recorded as a missing expression and stands as `Error`.
pub open spec fn p_unit(c: Ctx, st: PState) -> (ExprS, PState)
    decreases remaining(c, st), 0nat,
{
    let t = peek(c, st);
    let st1 = advance(c, st);
    let sp = st1.last;
    if t == Token::Integer {
        match decimal(token_text(c, sp)) {
            Some(v) => (leaf(ExprV::IntegerLiteral(v), sp), st1),
            None => (leaf(ExprV::Error, sp), PState { errs: record(c, st, int_too_large()).errs, ..st1 }),
        }
    } else if t == Token::Float {
        (leaf(ExprV::FloatLiteral(ascii_text(token_text(c, sp))), sp), st1)
    } else if t == Token::String {
        (leaf(ExprV::StringLiteral(utf8_text(token_text(c, sp))), sp), st1)
    } else if t == Token::Ident {
        (leaf(ExprV::Ident(ascii_text(token_text(c, sp))), sp), st1)
    } else if t == Token::OpenParen {
        let (inner, st2) = p_op(c, 0, st1);
        if st2.idx < st1.idx {
            (inner, st2)
        } else if peek(c, st2) == Token::Comma {
            let (items, st3) = p_list(c, Token::Comma, Token::CloseParen, seq![inner], advance(c, st2));
            (leaf(ExprV::Tuple(items), span_union(sp, st3.last)), st3)
        } else {
            let st3 = expect_tok(c, st2, Token::CloseParen);
            (leaf(inner.val, span_union(sp, st3.last)), st3)
        }
    } else if t == Token::OpenSquare {
        let (items, st2) = p_list(c, Token::Comma, Token::CloseSquare, seq![], st1);
        (leaf(ExprV::Array(items), span_union(sp, st2.last)), st2)
    } else if t == Token::OpenCurly {
        let (b, st2) = p_block(c, sp, seq![], st1);
        (leaf(ExprV::Block(Box::new(b)), span_union(sp, st2.last)), st2)
    } else if unary_level_spec(t) is Some && unary_op_of(t) is Some && t != Token::Eof {
        let (x, st2) = p_above(c, unary_level_spec(t).unwrap() as int, st1);
        (leaf(ExprV::UnaryOp(unary_op_of(t).unwrap(), Box::new(x)), span_union(sp, st2.last)), st2)
    } else {
        (leaf(ExprV::Error, peek_span(c, st)), record(c, st, expression_word()))
    }
}

pub open spec fn expression_word() -> Seq<char> {
    "expression"@
}

pub open spec fn int_too_large() -> Seq<char> {
    "integer literal that fits in 128 bits"@
}

/// What binds tighter than level `prec`: the next infix level, or a primary.
pub open spec fn p_above(c: Ctx, prec: int, st: PState) -> (ExprS, PState)
    decreases remaining(c, st), (op_rank(prec) - 1) as nat,
    via p_above_decreases
{
    match next_infix_spec(prec) {
        Some(n) => p_op(c, n as int, st),
        None => p_unit(c, st),
    }
}

#[via_fn]
proof fn p_above_decreases(c: Ctx, prec: int, st: PState) {
    lemma_infix_from_bounds(prec + 1);
}

/// An expression at precedence level `prec` and tighter.
pub open spec fn p_op(c: Ctx, prec: int, st: PState) -> (ExprS, PState)
    decreases remaining(c, st), op_rank(prec),
{
    let (left, st1) = p_above(c, prec, st);
    if st1.idx < st.idx {
        (left, st1)
    } else {
        p_op_rest(c, prec, left, st1)
    }
}

/// Folds the operators of level `prec` that follow `left`: a left-associative
/// level takes a tighter operand on the right, a right-associative one an
/// operand of its own level.
pub open spec fn p_op_rest(c: Ctx, prec: int, left: ExprS, st: PState) -> (ExprS, PState)
    decreases remaining(c, st), (op_rank(prec) - 1) as nat,
{
    let t = peek(c, st);
    if is_infix_spec(t, prec) && t != Token::Eof {
        let st1 = advance(c, st);
        let (right, st2) = if level_kind(prec) == OpType::Left {
            p_above(c, prec, st1)
        } else {
            p_op(c, prec, st1)
        };
        if st2.idx < st1.idx {
            (left, st2)
        } else {
            let e = ExprS {
                val: ExprV::BinOp(Box::new(left), bin_op_of(t).unwrap(), Box::new(right)),
                span: span_union(left.span, right.span),
            };
            p_op_rest(c, prec, e, st2)
        }
    } else {
        (left, st)
    }
}

/// The rest of a delimited list after its opening token: elements separated by
/// `delim`, an optional trailing `delim`, then `end`, which is required.
pub open spec fn p_list(c: Ctx, delim: Token, end: Token, acc: Seq<ExprS>, st: PState) -> (
    Seq<ExprS>,
    PState,
)
    decreases remaining(c, st), list_rank(),
{
    if peek(c, st) == end {
        (acc, advance(c, st))
    } else {
        let (e, st1) = p_op(c, 0, st);
        if st1.idx < st.idx {
            (acc.push(e), st1)
        } else if peek(c, st1) == delim && delim != Token::Eof {
            p_list(c, delim, end, acc.push(e), advance(c, st1))
        } else {
            (acc.push(e), expect_tok(c, st1, end))
        }
    }
}

/// The rest of a block after its opening brace, which spans `start`, with the
/// statements `normal` already read.
pub open spec fn p_block(c: Ctx, start: Span, normal: Seq<ExprS>, st: PState) -> (BlockS, PState)
    decreases remaining(c, st), list_rank(),
{
    let (e, st1) = p_op(c, 0, st);
    if st1.idx < st.idx {
        (BlockS { val: BlockV { normal, ret: Some(e) }, span: start }, st1)
    } else if peek(c, st1) == Token::Semicolon {
        let st2 = advance(c, st1);
        if peek(c, st2) == Token::CloseCurly {
            let st3 = advance(c, st2);
            (
                BlockS { val: BlockV { normal: normal.push(e), ret: None }, span: span_union(start, st3.last) },
                st3,
            )
        } else {
            p_block(c, start, normal.push(e), st2)
        }
    } else {
        let st2 = expect_tok(c, st1, Token::CloseCurly);
        (BlockS { val: BlockV { normal, ret: Some(e) }, span: span_union(start, st2.last) }, st2)
    }
}

/// A whole program: `{`, a block, then the end of the text.
pub open spec fn p_program(c: Ctx, st: PState) -> (BlockS, PState) {
    let st1 = expect_tok(c, st, Token::OpenCurly);
    let (b, st2) = p_block(c, st1.last, seq![], st1);
    (b, expect_tok(c, st2, Token::Eof))
}

} // verus!
