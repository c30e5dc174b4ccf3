use vstd::prelude::*;
use crate::ast::{
    sblock_matches, sexpr_matches, stmt_matches, Block, BlockS, BlockV, Expr, ExprS, ExprV, Stmt,
};
use crate::error::{ParserError, ParserWarning};
use crate::grammar::{
    advance, expect, expect_tok, expression_word, list_rank, op_rank, p_above, p_block, p_list, p_op,
    p_op_rest, p_program, p_unit, peek, peek_span, quoted, record, remaining, text_of, token_text,
    decimal, Ctx, ErrV, PState,
};
use crate::lexer::{is_ascii_range, lex_from, tokenize};
use crate::operators::{
    bin_op_of, is_infix_prec, lemma_table_ops, level_kind, next_infix, prec_type, unary_prec, OpType,
};
use crate::sources::{stored, stored_count, Source, SourceKey, SourceMap};
use crate::span::{span_union, Span, Spanned};
use crate::tokens::Token;

verus! {

broadcast use vstd::seq::group_seq_axioms;

/// Every element of `es` is the expression that the same element of `vs` describes.
pub open spec fn all_match(es: Seq<Spanned<Expr>>, vs: Seq<ExprS>) -> bool {
    es.len() == vs.len() && forall|i: int| 0 <= i < vs.len() ==> sexpr_matches(#[trigger] es[i], vs[i])
}

pub open spec fn all_stmts_match(es: Seq<Spanned<Stmt>>, vs: Seq<ExprS>) -> bool {
    es.len() == vs.len() && forall|i: int| 0 <= i < vs.len() ==> stmt_matches(#[trigger] es[i], vs[i])
}

pub open spec fn errs_of(es: Seq<ParserError>) -> Seq<ErrV> {
    es.map_values(|e: ParserError| e.view())
}

/// The value of the decimal numeral `w`, if it fits in a `u128`.
fn decimal_of(w: &[u8]) -> (r: Option<u128>)
    ensures
        r == decimal(w@),
{
    let mut acc: u128 = 0;
    let mut i: usize = 0;
    while i < w.len()
        invariant
            i <= w@.len(),
            decimal(w@.subrange(0, i as int)) == Some(acc),
        decreases w@.len() - i,
    {
        let d: u128 = if 48 <= w[i] && w[i] <= 57 { (w[i] - 48) as u128 } else { 0 };
        proof {
            let p = w@.subrange(0, i as int + 1);
            assert(p.drop_last() =~= w@.subrange(0, i as int));
        }
        if acc > 34028236692093846346337460743176821145 {
            proof { lemma_decimal_none_after(w@, i as int + 1); }
            return None;
        }
        let m = acc * 10;
        if m > u128::MAX - d {
            proof { lemma_decimal_none_after(w@, i as int + 1); }
            return None;
        }
        acc = m + d;
        i = i + 1;
    }
    assert(w@.subrange(0, w@.len() as int) =~= w@);
    Some(acc)
}

/// Once a prefix of a numeral overflows, the whole numeral does.
proof fn lemma_decimal_none_after(w: Seq<u8>, k: int)
    requires
        0 <= k <= w.len(),
        decimal(w.subrange(0, k)) is None,
    ensures
        decimal(w) is None,
    decreases w.len() - k,
{
    if k < w.len() {
        let p = w.subrange(0, k + 1);
        assert(p.drop_last() =~= w.subrange(0, k));
        lemma_decimal_none_after(w, k + 1);
    } else {
        assert(w.subrange(0, k) =~= w);
    }
}

/// A precedence-climbing parser over the tokens of one source.
pub struct Parser<'a> {
    toks: Vec<(Token, Span)>,
    idx: usize,
    last: Span,
    text: &'a [u8],
    pub src: SourceKey,
    pub errors: Vec<ParserError>,
    pub warnings: Vec<ParserWarning>,
}

impl<'a> Parser<'a> {
    /// What the parser reads.
    pub closed spec fn ctx(&self) -> Ctx {
        Ctx { toks: self.toks@, text: self.text@ }
    }

    /// Where the parser stands.
    pub closed spec fn state(&self) -> PState {
        PState { idx: self.idx as int, last: self.last, errs: errs_of(self.errors@) }
    }

    pub closed spec fn wf(&self) -> bool {
        &&& self.toks@.len() >= 1
        &&& self.idx < self.toks@.len()
        &&& forall|i: int|
            0 <= i < self.toks@.len() ==> (#[trigger] self.toks@[i]).1.start <= self.toks@[i].1.end
                <= self.text@.len()
        &&& forall|i: int|
            0 <= i < self.toks@.len() && (self.toks@[i].0 == Token::Ident || self.toks@[i].0
                == Token::Float) ==> is_ascii_range(
                self.text@,
                (#[trigger] self.toks@[i]).1.start as int,
                self.toks@[i].1.end as int,
            )
        &&& forall|i: int| 0 <= i < self.errors@.len() ==> (#[trigger] self.errors@[i]).source() == self.src
    }

    /// `self` and `other` parse the same tokens of the same source, and hold
    /// the same warnings.
    pub open spec fn same_input(&self, other: &Parser<'a>) -> bool {
        &&& self.ctx() == other.ctx()
        &&& self.source_key() == other.source_key()
        &&& self.warning_list() == other.warning_list()
    }

    /// The source that the parser reads.
    pub closed spec fn source_key(&self) -> SourceKey {
        self.src
    }

    /// The warnings recorded so far.
    pub closed spec fn warning_list(&self) -> Seq<ParserWarning> {
        self.warnings@
    }

    /// The errors recorded so far, in order; each lies in the parser's source.
    pub fn errors(&self) -> (r: &Vec<ParserError>)
        requires
            self.wf(),
        ensures
            errs_of(r@) == self.state().errs,
            r@.len() == self.state().errs.len(),
            forall|i: int|
                0 <= i < r@.len() ==> (#[trigger] r@[i]).view() == self.state().errs[i]
                    && r@[i].source() == self.source_key(),
    {
        &self.errors
    }

    /// The warnings recorded so far, in order.
    pub fn warnings(&self) -> (r: &Vec<ParserWarning>)
        ensures
            r@ == self.warning_list(),
    {
        &self.warnings
    }

    /// The source that the parser reads.
    pub fn src(&self) -> (r: SourceKey)
        ensures
            r == self.source_key(),
    {
        self.src
    }

    /// Registers `src` and binds a parser to its text.
    pub fn new(src: Source, sources: &'a mut SourceMap) -> (r: Parser<'a>)
        requires
            stored_count(*old(sources)) < 4294967294,
        ensures
            r.wf(),
            !stored(*old(sources)).contains_key(r.source_key()),
            stored(*final(sources)) == stored(*old(sources)).insert(r.source_key(), src),
            r.ctx().text == vstd::utf8::encode_utf8(src.content@),
            r.ctx().toks == lex_from(vstd::utf8::encode_utf8(src.content@), 0),
            r.state() == (PState { idx: 0, last: Span { start: 0, end: 0 }, errs: seq![] }),
            r.warning_list() == Seq::<ParserWarning>::empty(),
    {
        let key = sources.insert(src);
        let m: &'a SourceMap = sources;
        let source = m.get(key);
        let text = source.content.as_str().as_bytes();
        let toks = tokenize(text);
        let p = Parser {
            toks,
            idx: 0,
            last: Span { start: 0, end: 0 },
            text,
            src: key,
            errors: Vec::new(),
            warnings: Vec::new(),
        };
        assert(errs_of(p.errors@) =~= seq![]);
        p
    }

    fn peek_tok(&self) -> (r: Token)
        requires
            self.wf(),
        ensures
            r == peek(self.ctx(), self.state()),
    {
        if self.idx < self.toks.len() - 1 {
            self.toks[self.idx].0
        } else {
            Token::Eof
        }
    }

    fn peek_span(&self) -> (r: Span)
        requires
            self.wf(),
        ensures
            r == peek_span(self.ctx(), self.state()),
            r.start <= r.end <= self.ctx().text.len(),
    {
        self.toks[self.idx].1
    }

    fn next_tok(&mut self) -> (r: Token)
        requires
            old(self).wf(),
        ensures
            final(self).wf(),
            final(self).same_input(old(self)),
            r == peek(old(self).ctx(), old(self).state()),
            final(self).state() == advance(old(self).ctx(), old(self).state()),
    {
        let k = self.peek_tok();
        let sp = self.peek_span();
        if k != Token::Eof && self.idx < self.toks.len() - 1 {
            self.idx = self.idx + 1;
        }
        self.last = sp;
        k
    }

    fn skip_tok(&mut self, tok: Token) -> (r: bool)
        requires
            old(self).wf(),
        ensures
            final(self).wf(),
            final(self).same_input(old(self)),
            r == (peek(old(self).ctx(), old(self).state()) == tok),
            final(self).state() == if r {
                advance(old(self).ctx(), old(self).state())
            } else {
                old(self).state()
            },
    {
        if self.peek_tok() == tok {
            self.next_tok();
            true
        } else {
            false
        }
    }

    /// Records that `expected` was wanted where the next token stands.
    fn record(&mut self, expected: String)
        requires
            old(self).wf(),
        ensures
            final(self).wf(),
            final(self).same_input(old(self)),
            final(self).state() == record(old(self).ctx(), old(self).state(), expected@),
    {
        let found = self.peek_tok();
        let area = self.peek_span().to_area(self.src);
        let e = ParserError::Expected { expected, found, area };
        self.errors.push(e);
        assert(errs_of(self.errors@) =~= errs_of(old(self).errors@).push(e.view()));
    }

    fn expect_tok_named(&mut self, tok: Token, name: String)
        requires
            old(self).wf(),
        ensures
            final(self).wf(),
            final(self).same_input(old(self)),
            final(self).state() == expect(old(self).ctx(), old(self).state(), tok, name@),
    {
        if self.peek_tok() == tok {
            self.next_tok();
        } else {
            self.record(name);
        }
    }

    fn expect_tok(&mut self, tok: Token)
        requires
            old(self).wf(),
        ensures
            final(self).wf(),
            final(self).same_input(old(self)),
            final(self).state() == expect_tok(old(self).ctx(), old(self).state(), tok),
    {
        let mut name = "`".to_owned();
        name.append(tok.name());
        name.append("`");
        proof {
            reveal_strlit("`");
        }
        assert(name@ =~= quoted(tok));
        self.expect_tok_named(tok, name);
    }

    fn token_bytes(&self, sp: Span) -> (r: &'a [u8])
        requires
            sp.start <= sp.end <= self.ctx().text.len(),
        ensures
            r@ == token_text(self.ctx(), sp),
    {
        vstd::slice::slice_subrange(self.text, sp.start, sp.end)
    }

    fn missing_expression(&mut self) -> (r: Spanned<Expr>)
        requires
            old(self).wf(),
        ensures
            final(self).wf(),
            final(self).same_input(old(self)),
            r.span == peek_span(old(self).ctx(), old(self).state()),
            r.val is Error,
            final(self).state() == record(old(self).ctx(), old(self).state(), expression_word()),
    {
        let sp = self.peek_span();
        let word = "expression".to_owned();
        self.record(word);
        Spanned { val: Expr::Error, span: sp }
    }

    /// A primary expression: a literal, an identifier, a parenthesised group or
    /// tuple, an array, a block, or a prefix operator with its operand. On any
    /// other token a missing expression is recorded and `Error` stands in its place.
    pub fn parse_unit(&mut self) -> (r: Spanned<Expr>)
        requires
            old(self).wf(),
        ensures
            final(self).wf(),
            final(self).same_input(old(self)),
            sexpr_matches(r, p_unit(old(self).ctx(), old(self).state()).0),
            final(self).state() == p_unit(old(self).ctx(), old(self).state()).1,
            final(self).state().idx >= old(self).state().idx,
        decreases remaining(old(self).ctx(), old(self).state()), 0nat,
    {
        let ghost c = self.ctx();
        let t = self.peek_tok();
        if t == Token::Integer {
            self.next_tok();
            let sp = self.last;
            let w = self.token_bytes(sp);
            match decimal_of(w) {
                Some(v) => Spanned { val: Expr::IntegerLiteral(v), span: sp },
                None => {
                    let word = "integer literal that fits in 128 bits".to_owned();
                    let area = sp.to_area(self.src);
                    let e = ParserError::Expected { expected: word, found: Token::Integer, area };
                    self.errors.push(e);
                    assert(errs_of(self.errors@) =~= errs_of(old(self).errors@).push(e.view()));
                    Spanned { val: Expr::Error, span: sp }
                },
            }
        } else if t == Token::Float {
            self.next_tok();
            let sp = self.last;
            let s = text_of(self.token_bytes(sp));
            Spanned { val: Expr::FloatLiteral(s), span: sp }
        } else if t == Token::String {
            self.next_tok();
            let sp = self.last;
            let s = text_of(self.token_bytes(sp));
            Spanned { val: Expr::StringLiteral(s), span: sp }
        } else if t == Token::Ident {
            self.next_tok();
            let sp = self.last;
            let s = text_of(self.token_bytes(sp));
            Spanned { val: Expr::Ident(s), span: sp }
        } else if t == Token::OpenParen {
            self.next_tok();
            let start = self.last;
            let ghost st1 = self.state();
            let inner = self.parse_expr();
            if self.skip_tok(Token::Comma) {
                let ghost iv = p_op(c, 0, st1).0;
                let mut items: Vec<Spanned<Expr>> = Vec::new();
                items.push(inner);
                assert(all_match(items@, seq![iv]));
                let ghost first = seq![iv];
                let items = self.list_parse_onto(Token::Comma, Token::CloseParen, items, Ghost(first));
                let sp = start.extended(self.last);
                Spanned { val: Expr::Tuple(items), span: sp }
            } else {
                self.expect_tok(Token::CloseParen);
                let sp = start.extended(self.last);
                Spanned { val: inner.val, span: sp }
            }
        } else if t == Token::OpenSquare {
            self.next_tok();
            let start = self.last;
            let items = self.list_parse(Token::Comma, Token::CloseSquare);
            let sp = start.extended(self.last);
            Spanned { val: Expr::Array(items), span: sp }
        } else if t == Token::OpenCurly {
            self.next_tok();
            let start = self.last;
            let block = self.parse_block();
            let sp = start.extended(self.last);
            Spanned { val: Expr::Block(Box::new(block)), span: sp }
        } else {
            match unary_prec(t) {
                Some(level) => match t.to_unary_op() {
                    Some(op) => {
                        if t == Token::Eof {
                            return self.missing_expression();
                        }
                        self.next_tok();
                        let start = self.last;
                        let val = self.parse_above(level);
                        let sp = start.extended(self.last);
                        Spanned { val: Expr::UnaryOp(op, Box::new(val)), span: sp }
                    },
                    None => self.missing_expression(),
                },
                None => self.missing_expression(),
            }
        }
    }

    /// What binds tighter than level `prec`: the next infix level, or a primary.
    fn parse_above(&mut self, prec: usize) -> (r: Spanned<Expr>)
        requires
            old(self).wf(),
        ensures
            final(self).wf(),
            final(self).same_input(old(self)),
            sexpr_matches(r, p_above(old(self).ctx(), prec as int, old(self).state()).0),
            final(self).state() == p_above(old(self).ctx(), prec as int, old(self).state()).1,
            final(self).state().idx >= old(self).state().idx,
        decreases remaining(old(self).ctx(), old(self).state()), (op_rank(prec as int) - 1) as nat,
    {
        match next_infix(prec) {
            Some(n) => self.parse_op(n),
            None => self.parse_unit(),
        }
    }

    /// A primary expression.
    pub fn parse_value(&mut self) -> (r: Spanned<Expr>)
        requires
            old(self).wf(),
        ensures
            final(self).wf(),
            final(self).same_input(old(self)),
            sexpr_matches(r, p_unit(old(self).ctx(), old(self).state()).0),
            final(self).state() == p_unit(old(self).ctx(), old(self).state()).1,
    {
        self.parse_unit()
    }

    /// An expression of precedence level `prec` or tighter, folding the level's
    /// operators by its associativity.
    pub fn parse_op(&mut self, prec: usize) -> (r: Spanned<Expr>)
        requires
            old(self).wf(),
        ensures
            final(self).wf(),
            final(self).same_input(old(self)),
            sexpr_matches(r, p_op(old(self).ctx(), prec as int, old(self).state()).0),
            final(self).state() == p_op(old(self).ctx(), prec as int, old(self).state()).1,
            final(self).state().idx >= old(self).state().idx,
        decreases remaining(old(self).ctx(), old(self).state()), op_rank(prec as int),
    {
        let ghost c = self.ctx();
        let ghost st0 = self.state();
        let mut left = self.parse_above(prec);
        let ghost mut lv = p_above(c, prec as int, st0).0;
        let ghost target = p_op(c, prec as int, st0);
        assert(target == p_op_rest(c, prec as int, lv, self.state()));
        while is_infix_prec(self.peek_tok(), prec)
            invariant
                self.wf(),
                self.same_input(old(self)),
                c == self.ctx(),
                c == old(self).ctx(),
                st0 == old(self).state(),
                self.state().idx >= st0.idx,
                remaining(c, self.state()) <= remaining(c, st0),
                sexpr_matches(left, lv),
                p_op_rest(c, prec as int, lv, self.state()) == target,
            decreases remaining(c, self.state()),
        {
            let op = self.next_tok();
            proof { lemma_table_ops(op, prec as int); }
            let ghost st1 = self.state();
            let right = if prec_type(prec) == OpType::Left {
                self.parse_above(prec)
            } else {
                self.parse_op(prec)
            };
            let ghost rv = if level_kind(prec as int) == OpType::Left {
                p_above(c, prec as int, st1).0
            } else {
                p_op(c, prec as int, st1).0
            };
            let span = left.span.extended(right.span);
            let bop = op.to_bin_op().unwrap();
            left = Spanned { val: Expr::BinOp(Box::new(left), bop, Box::new(right)), span };
            proof {
                lv = ExprS {
                    val: ExprV::BinOp(Box::new(lv), bin_op_of(op).unwrap(), Box::new(rv)),
                    span: span_union(lv.span, rv.span),
                };
            }
        }
        left
    }

    /// The rest of a delimited list after its opening token: elements
    /// separated by `delim`, an optional trailing `delim`, then `end`, whose
    /// absence is recorded.
    pub fn list_parse(&mut self, delim: Token, end: Token) -> (r: Vec<Spanned<Expr>>)
        requires
            old(self).wf(),
        ensures
            final(self).wf(),
            final(self).same_input(old(self)),
            all_match(r@, p_list(old(self).ctx(), delim, end, seq![], old(self).state()).0),
            final(self).state() == p_list(old(self).ctx(), delim, end, seq![], old(self).state()).1,
            final(self).state().idx >= old(self).state().idx,
        decreases remaining(old(self).ctx(), old(self).state()), list_rank() + 1,
    {
        let ghost none: Seq<ExprS> = seq![];
        self.list_parse_onto(delim, end, Vec::new(), Ghost(none))
    }

    /// As `list_parse`, appending to `items`, which `acc` describes.
    fn list_parse_onto(
        &mut self,
        delim: Token,
        end: Token,
        items: Vec<Spanned<Expr>>,
        Ghost(acc): Ghost<Seq<ExprS>>,
    ) -> (r: Vec<Spanned<Expr>>)
        requires
            old(self).wf(),
            all_match(items@, acc),
        ensures
            final(self).wf(),
            final(self).same_input(old(self)),
            all_match(r@, p_list(old(self).ctx(), delim, end, acc, old(self).state()).0),
            final(self).state() == p_list(old(self).ctx(), delim, end, acc, old(self).state()).1,
            final(self).state().idx >= old(self).state().idx,
        decreases remaining(old(self).ctx(), old(self).state()), list_rank(),
    {
        let ghost c = self.ctx();
        let ghost st0 = self.state();
        let ghost target = p_list(c, delim, end, acc, st0);
        let mut items = items;
        let ghost mut done = acc;
        loop
            invariant
                self.wf(),
                self.same_input(old(self)),
                c == self.ctx(),
                c == old(self).ctx(),
                st0 == old(self).state(),
                self.state().idx >= st0.idx,
                remaining(c, self.state()) <= remaining(c, st0),
                all_match(items@, done),
                p_list(c, delim, end, done, self.state()) == target,
                target == p_list(c, delim, end, acc, st0),
            decreases remaining(c, self.state()),
        {
            let ghost st = self.state();
            assert(target == p_list(c, delim, end, done, st));
            if self.skip_tok(end) {
                assert(p_list(c, delim, end, done, st) == (done, advance(c, st)));
                return items;
            }
            let e = self.parse_op(0);
            let ghost ev = p_op(c, 0, st).0;
            let ghost st1 = self.state();
            let ghost acc0 = done;
            items.push(e);
            proof {
                done = done.push(ev);
                assert(all_match(items@, done));
            }
            if delim == Token::Eof || !self.skip_tok(delim) {
                self.expect_tok(end);
                assert(p_list(c, delim, end, acc0, st) == (done, expect_tok(c, st1, end)));
                return items;
            }
        }
    }

    /// The rest of a block after its opening brace: statements ended by `;`,
    /// then either `}` or a trailing expression that is the block's value and
    /// must be followed by `}`.
    pub fn parse_block(&mut self) -> (r: Spanned<Block>)
        requires
            old(self).wf(),
        ensures
            final(self).wf(),
            final(self).same_input(old(self)),
            sblock_matches(r, p_block(old(self).ctx(), old(self).state().last, seq![], old(self).state()).0),
            final(self).state() == p_block(old(self).ctx(), old(self).state().last, seq![], old(self).state()).1,
            final(self).state().idx >= old(self).state().idx,
        decreases remaining(old(self).ctx(), old(self).state()), list_rank(),
    {
        let ghost c = self.ctx();
        let ghost st0 = self.state();
        let start = self.last;
        let ghost target = p_block(c, start, seq![], st0);
        let mut normal: Vec<Spanned<Stmt>> = Vec::new();
        let ghost mut nv: Seq<ExprS> = seq![];
        loop
            invariant
                self.wf(),
                self.same_input(old(self)),
                c == self.ctx(),
                c == old(self).ctx(),
                st0 == old(self).state(),
                self.state().idx >= st0.idx,
                remaining(c, self.state()) <= remaining(c, st0),
                all_stmts_match(normal@, nv),
                p_block(c, start, nv, self.state()) == target,
                target == p_block(c, start, seq![], st0),
                start == st0.last,
            decreases remaining(c, self.state()),
        {
            let ghost st = self.state();
            assert(target == p_block(c, start, nv, st));
            let e = self.parse_op(0);
            let ghost ev = p_op(c, 0, st).0;
            let stmt = Spanned { val: Stmt::Expr(e.val), span: e.span };
            if !self.skip_tok(Token::Semicolon) {
                self.expect_tok(Token::CloseCurly);
                let span = start.extended(self.last);
                let ghost b = BlockS { val: BlockV { normal: nv, ret: Some(ev) }, span: span_union(start, self.last) };
                assert(p_block(c, start, nv, st) == (b, self.state()));
                return Spanned { val: Block { normal, ret: Some(stmt) }, span };
            }
            let ghost nv0 = nv;
            normal.push(stmt);
            proof {
                nv = nv.push(ev);
                assert(all_stmts_match(normal@, nv));
            }
            if self.skip_tok(Token::CloseCurly) {
                let span = start.extended(self.last);
                let ghost b = BlockS { val: BlockV { normal: nv, ret: None }, span: span_union(start, self.last) };
                assert(p_block(c, start, nv0, st) == (b, self.state()));
                return Spanned { val: Block { normal, ret: None }, span };
            }
        }
    }

    /// A whole program: `{`, a block, then the end of the text.
    pub fn parse_cock(&mut self) -> (r: Spanned<Block>)
        requires
            old(self).wf(),
        ensures
            final(self).wf(),
            final(self).same_input(old(self)),
            sblock_matches(r, p_program(old(self).ctx(), old(self).state()).0),
            final(self).state() == p_program(old(self).ctx(), old(self).state()).1,
    {
        self.expect_tok(Token::OpenCurly);
        let out = self.parse_block();
        self.expect_tok(Token::Eof);
        out
    }

    /// An expression.
    pub fn parse_expr(&mut self) -> (r: Spanned<Expr>)
        requires
            old(self).wf(),
        ensures
            final(self).wf(),
            final(self).same_input(old(self)),
            sexpr_matches(r, p_op(old(self).ctx(), 0, old(self).state()).0),
            final(self).state() == p_op(old(self).ctx(), 0, old(self).state()).1,
            final(self).state().idx >= old(self).state().idx,
        decreases remaining(old(self).ctx(), old(self).state()), op_rank(0) + 1,
    {
        self.parse_op(0)
    }
}

} // verus!
