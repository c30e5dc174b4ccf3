use vstd::prelude::*;
use vstd::string::StringSliceAdditionalSpecFns;
use crate::span::Span;
use crate::tokens::Token;

verus! {

pub open spec fn is_ws(b: u8) -> bool {
    b == 32 || b == 9 || b == 10 || b == 12 || b == 13
}

pub open spec fn is_digit(b: u8) -> bool {
    48 <= b <= 57
}

pub open spec fn is_ident_start(b: u8) -> bool {
    (65 <= b <= 90) || (97 <= b <= 122) || b == 95
}

pub open spec fn is_ident_char(b: u8) -> bool {
    is_ident_start(b) || is_digit(b)
}

/// The first position at or after `i` that does not hold whitespace.
pub open spec fn skip_ws(t: Seq<u8>, i: int) -> int
    decreases t.len() - i,
{
    if 0 <= i < t.len() && is_ws(t[i]) {
        skip_ws(t, i + 1)
    } else {
        i
    }
}

/// The end of the run of identifier characters that starts at `i`.
pub open spec fn ident_end(t: Seq<u8>, i: int) -> int
    decreases t.len() - i,
{
    if 0 <= i < t.len() && is_ident_char(t[i]) {
        ident_end(t, i + 1)
    } else {
        i
    }
}

/// The end of the run of decimal digits that starts at `i`.
pub open spec fn digits_end(t: Seq<u8>, i: int) -> int
    decreases t.len() - i,
{
    if 0 <= i < t.len() && is_digit(t[i]) {
        digits_end(t, i + 1)
    } else {
        i
    }
}

/// Scans the body of a string literal from `i`, where `bs` tells whether the
/// previous byte was a backslash and `last` is the end of the longest literal
/// found so far (or -1). A literal is `"`, then bytes in which every `"` follows
/// a backslash, then `"`; the longest one wins.
pub open spec fn string_end(t: Seq<u8>, i: int, bs: bool, last: int) -> int
    decreases t.len() - i,
{
    if i < 0 || i >= t.len() {
        last
    } else if t[i] == 34 {
        if bs {
            string_end(t, i + 1, false, i + 1)
        } else {
            i + 1
        }
    } else if t[i] == 92 {
        string_end(t, i + 1, true, last)
    } else {
        string_end(t, i + 1, false, last)
    }
}

/// The keyword spelled by `w`, or `Ident` for any other identifier.
pub open spec fn keyword(w: Seq<u8>) -> Token {
    if w.len() == 4 && w[0] == 116 && w[1] == 114 && w[2] == 117 && w[3] == 101 {
        Token::True
    } else if w.len() == 5 && w[0] == 102 && w[1] == 97 && w[2] == 108 && w[3] == 115 && w[4]
        == 101 {
        Token::False
    } else if w.len() == 3 && w[0] == 108 && w[1] == 101 && w[2] == 116 {
        Token::Let
    } else if w.len() == 2 && w[0] == 105 && w[1] == 102 {
        Token::If
    } else if w.len() == 4 && w[0] == 101 && w[1] == 108 && w[2] == 115 && w[3] == 101 {
        Token::Else
    } else if w.len() == 5 && w[0] == 119 && w[1] == 104 && w[2] == 105 && w[3] == 108 && w[4]
        == 101 {
        Token::While
    } else if w.len() == 3 && w[0] == 102 && w[1] == 111 && w[2] == 114 {
        Token::For
    } else if w.len() == 3 && w[0] == 100 && w[1] == 98 && w[2] == 103 {
        Token::Dbg
    } else {
        Token::Ident
    }
}

/// The number of bytes of the UTF-8 character whose first byte is `c`.
pub open spec fn char_width(c: u8) -> int {
    if c >= 240 {
        4
    } else if c >= 224 {
        3
    } else if c >= 192 {
        2
    } else {
        1
    }
}

/// An operator or punctuation symbol at `c` (followed by `n`, or 0 at the end
/// of the text), with its length; the two-byte symbols win over their first
/// byte. Anything else is one unknown character.
pub open spec fn symbol(c: u8, n: u8) -> (Token, int) {
    if c == 43 {
        if n == 61 { (Token::PlusAssign, 2) } else { (Token::Plus, 1) }
    } else if c == 45 {
        if n == 61 { (Token::MinusAssign, 2) } else { (Token::Minus, 1) }
    } else if c == 42 {
        if n == 61 { (Token::MultAssign, 2) } else { (Token::Asterisk, 1) }
    } else if c == 47 {
        if n == 61 { (Token::DivAssign, 2) } else { (Token::Div, 1) }
    } else if c == 37 {
        if n == 61 { (Token::ModAssign, 2) } else { (Token::Mod, 1) }
    } else if c == 61 {
        if n == 61 {
            (Token::Eq, 2)
        } else if n == 62 {
            (Token::FatArrow, 2)
        } else {
            (Token::Assign, 1)
        }
    } else if c == 33 {
        if n == 61 { (Token::NEq, 2) } else { (Token::Unknown, 1) }
    } else if c == 60 {
        if n == 61 { (Token::LtE, 2) } else { (Token::Lt, 1) }
    } else if c == 62 {
        if n == 61 { (Token::GtE, 2) } else { (Token::Gt, 1) }
    } else if c == 40 {
        (Token::OpenParen, 1)
    } else if c == 41 {
        (Token::CloseParen, 1)
    } else if c == 91 {
        (Token::OpenSquare, 1)
    } else if c == 93 {
        (Token::CloseSquare, 1)
    } else if c == 123 {
        (Token::OpenCurly, 1)
    } else if c == 125 {
        (Token::CloseCurly, 1)
    } else if c == 44 {
        (Token::Comma, 1)
    } else if c == 59 {
        (Token::Semicolon, 1)
    } else if c == 58 {
        (Token::Colon, 1)
    } else {
        (Token::Unknown, char_width(c))
    }
}

/// The token that follows position `pos` of `t`, with its start and end:
/// whitespace is skipped, the longest literal or identifier is taken (a keyword
/// where the identifier spells one), then symbols; past the end comes `Eof`,
/// spanning the end of the text.
pub open spec fn lex_at(t: Seq<u8>, pos: int) -> (Token, int, int) {
    let s = skip_ws(t, pos);
    if s >= t.len() {
        (Token::Eof, t.len() as int, t.len() as int)
    } else if is_ident_start(t[s]) {
        let e = ident_end(t, s);
        (keyword(t.subrange(s, e)), s, e)
    } else if is_digit(t[s]) {
        let d = digits_end(t, s);
        if d < t.len() && t[d] == 46 {
            (Token::Float, s, digits_end(t, d + 1))
        } else {
            (Token::Integer, s, d)
        }
    } else if t[s] == 34 {
        let e = string_end(t, s + 1, false, -1);
        if e < 0 {
            (Token::Unknown, s, s + 1)
        } else {
            (Token::String, s, e)
        }
    } else {
        let n: u8 = if s + 1 < t.len() { t[s + 1] } else { 0 };
        let (k, w) = symbol(t[s], n);
        (k, s, if s + w <= t.len() { s + w } else { t.len() as int })
    }
}

/// The bytes of `t` from `s` to `e` are all ASCII.
pub open spec fn is_ascii_range(t: Seq<u8>, s: int, e: int) -> bool {
    forall|k: int| s <= k < e ==> #[trigger] t[k] < 128
}

/// Every token of `t` from `pos` on, ending with `Eof`. Every other token
/// ends past `pos` and inside the text (see `lex_token`); the test of that
/// makes the recursion visibly finite.
pub open spec fn lex_from(t: Seq<u8>, pos: int) -> Seq<(Token, Span)>
    decreases t.len() - pos,
{
    let (k, s, e) = lex_at(t, pos);
    let tok = (k, Span { start: s as usize, end: e as usize });
    if k == Token::Eof || e <= pos || e > t.len() {
        seq![tok]
    } else {
        seq![tok] + lex_from(t, e)
    }
}

/// Once the lexer reaches the end of the text, it yields `Eof` forever: the
/// token after an `Eof` is again `Eof`, at the same place.
pub proof fn lemma_eof_forever(t: Seq<u8>, pos: int)
    requires
        lex_at(t, pos).0 == Token::Eof,
    ensures
        lex_at(t, lex_at(t, pos).2) == lex_at(t, pos),
{
    let n = t.len() as int;
    assert(skip_ws(t, n) == n);
}

fn scan_ws(t: &[u8], i: usize) -> (r: usize)
    requires
        i <= t@.len(),
    ensures
        r == skip_ws(t@, i as int),
        i <= r <= t@.len(),
    decreases t@.len() - i,
{
    if i < t.len() && (t[i] == 32 || t[i] == 9 || t[i] == 10 || t[i] == 12 || t[i] == 13) {
        scan_ws(t, i + 1)
    } else {
        i
    }
}

fn scan_ident(t: &[u8], i: usize) -> (r: usize)
    requires
        i <= t@.len(),
    ensures
        r == ident_end(t@, i as int),
        i <= r <= t@.len(),
        i < t@.len() && is_ident_char(t@[i as int]) ==> r > i,
        forall|k: int| i <= k < r ==> is_ident_char(#[trigger] t@[k]),
    decreases t@.len() - i,
{
    if i < t.len() && ((65 <= t[i] && t[i] <= 90) || (97 <= t[i] && t[i] <= 122) || t[i] == 95
        || (48 <= t[i] && t[i] <= 57)) {
        scan_ident(t, i + 1)
    } else {
        i
    }
}

fn scan_digits(t: &[u8], i: usize) -> (r: usize)
    requires
        i <= t@.len(),
    ensures
        r == digits_end(t@, i as int),
        i <= r <= t@.len(),
        i < t@.len() && is_digit(t@[i as int]) ==> r > i,
        forall|k: int| i <= k < r ==> is_digit(#[trigger] t@[k]),
    decreases t@.len() - i,
{
    if i < t.len() && 48 <= t[i] && t[i] <= 57 {
        scan_digits(t, i + 1)
    } else {
        i
    }
}

fn scan_string(t: &[u8], i: usize, bs: bool, last: Option<usize>) -> (r: Option<usize>)
    requires
        i <= t@.len(),
        last matches Some(l) ==> l <= i,
    ensures
        match r {
            Some(e) => string_end(t@, i as int, bs, if let Some(l) = last { l as int } else { -1 })
                == e && e <= t@.len(),
            None => string_end(t@, i as int, bs, if let Some(l) = last { l as int } else { -1 })
                == -1,
        },
        r matches Some(e) ==> (e > i || last == Some(e)),
    decreases t@.len() - i,
{
    if i >= t.len() {
        last
    } else if t[i] == 34 {
        if bs {
            scan_string(t, i + 1, false, Some(i + 1))
        } else {
            Some(i + 1)
        }
    } else if t[i] == 92 {
        scan_string(t, i + 1, true, last)
    } else {
        scan_string(t, i + 1, false, last)
    }
}

fn keyword_of(t: &[u8], s: usize, e: usize) -> (r: Token)
    requires
        s <= e <= t@.len(),
    ensures
        r == keyword(t@.subrange(s as int, e as int)),
{
    let n = e - s;
    if n == 4 && t[s] == 116 && t[s + 1] == 114 && t[s + 2] == 117 && t[s + 3] == 101 {
        Token::True
    } else if n == 5 && t[s] == 102 && t[s + 1] == 97 && t[s + 2] == 108 && t[s + 3] == 115
        && t[s + 4] == 101 {
        Token::False
    } else if n == 3 && t[s] == 108 && t[s + 1] == 101 && t[s + 2] == 116 {
        Token::Let
    } else if n == 2 && t[s] == 105 && t[s + 1] == 102 {
        Token::If
    } else if n == 4 && t[s] == 101 && t[s + 1] == 108 && t[s + 2] == 115 && t[s + 3] == 101 {
        Token::Else
    } else if n == 5 && t[s] == 119 && t[s + 1] == 104 && t[s + 2] == 105 && t[s + 3] == 108
        && t[s + 4] == 101 {
        Token::While
    } else if n == 3 && t[s] == 102 && t[s + 1] == 111 && t[s + 2] == 114 {
        Token::For
    } else if n == 3 && t[s] == 100 && t[s + 1] == 98 && t[s + 2] == 103 {
        Token::Dbg
    } else {
        Token::Ident
    }
}

fn symbol_at(c: u8, n: u8) -> (r: (Token, usize))
    ensures
        r.0 == symbol(c, n).0,
        r.1 == symbol(c, n).1,
        1 <= r.1 <= 4,
{
    if c == 43 {
        if n == 61 { (Token::PlusAssign, 2) } else { (Token::Plus, 1) }
    } else if c == 45 {
        if n == 61 { (Token::MinusAssign, 2) } else { (Token::Minus, 1) }
    } else if c == 42 {
        if n == 61 { (Token::MultAssign, 2) } else { (Token::Asterisk, 1) }
    } else if c == 47 {
        if n == 61 { (Token::DivAssign, 2) } else { (Token::Div, 1) }
    } else if c == 37 {
        if n == 61 { (Token::ModAssign, 2) } else { (Token::Mod, 1) }
    } else if c == 61 {
        if n == 61 {
            (Token::Eq, 2)
        } else if n == 62 {
            (Token::FatArrow, 2)
        } else {
            (Token::Assign, 1)
        }
    } else if c == 33 {
        if n == 61 { (Token::NEq, 2) } else { (Token::Unknown, 1) }
    } else if c == 60 {
        if n == 61 { (Token::LtE, 2) } else { (Token::Lt, 1) }
    } else if c == 62 {
        if n == 61 { (Token::GtE, 2) } else { (Token::Gt, 1) }
    } else if c == 40 {
        (Token::OpenParen, 1)
    } else if c == 41 {
        (Token::CloseParen, 1)
    } else if c == 91 {
        (Token::OpenSquare, 1)
    } else if c == 93 {
        (Token::CloseSquare, 1)
    } else if c == 123 {
        (Token::OpenCurly, 1)
    } else if c == 125 {
        (Token::CloseCurly, 1)
    } else if c == 44 {
        (Token::Comma, 1)
    } else if c == 59 {
        (Token::Semicolon, 1)
    } else if c == 58 {
        (Token::Colon, 1)
    } else if c >= 240 {
        (Token::Unknown, 4)
    } else if c >= 224 {
        (Token::Unknown, 3)
    } else if c >= 192 {
        (Token::Unknown, 2)
    } else {
        (Token::Unknown, 1)
    }
}

/// Classifies the token that follows `pos`, returning it with its span.
pub fn lex_token(t: &[u8], pos: usize) -> (r: (Token, Span))
    requires
        pos <= t@.len(),
    ensures
        r.0 == lex_at(t@, pos as int).0,
        r.1.start == lex_at(t@, pos as int).1,
        r.1.end == lex_at(t@, pos as int).2,
        r.1.start <= r.1.end <= t@.len(),
        r.0 != Token::Eof ==> pos < r.1.end,
        r.0 == Token::Eof ==> r.1.end == t@.len(),
        r.0 == Token::Ident || r.0 == Token::Float ==> is_ascii_range(t@, r.1.start as int, r.1.end as int),
{
    let s = scan_ws(t, pos);
    if s >= t.len() {
        return (Token::Eof, Span { start: t.len(), end: t.len() });
    }
    let c = t[s];
    if (65 <= c && c <= 90) || (97 <= c && c <= 122) || c == 95 {
        let e = scan_ident(t, s);
        (keyword_of(t, s, e), Span { start: s, end: e })
    } else if 48 <= c && c <= 57 {
        let d = scan_digits(t, s);
        if d < t.len() && t[d] == 46 {
            let e = scan_digits(t, d + 1);
            (Token::Float, Span { start: s, end: e })
        } else {
            (Token::Integer, Span { start: s, end: d })
        }
    } else if c == 34 {
        match scan_string(t, s + 1, false, None) {
            Some(e) => (Token::String, Span { start: s, end: e }),
            None => (Token::Unknown, Span { start: s, end: s + 1 }),
        }
    } else {
        let n: u8 = if s + 1 < t.len() { t[s + 1] } else { 0 };
        let (k, w) = symbol_at(c, n);
        let e = if w <= t.len() - s { s + w } else { t.len() };
        (k, Span { start: s, end: e })
    }
}

/// A cursor over one source text that produces its tokens one at a time.
#[derive(Clone, Copy)]
pub struct Lexer<'a> {
    text: &'a str,
    bytes: &'a [u8],
    pos: usize,
    last: Span,
}

impl<'a> Lexer<'a> {
    /// The bytes of the text.
    pub closed spec fn source(self) -> Seq<u8> {
        self.bytes@
    }

    /// Where the next token is looked for: the end of the last one produced.
    pub closed spec fn cursor(self) -> int {
        self.pos as int
    }

    /// The span of the last token produced.
    pub closed spec fn last_span(self) -> Span {
        self.last
    }

    pub closed spec fn wf(self) -> bool {
        &&& self.bytes@ == self.text.spec_bytes()
        &&& self.pos <= self.bytes@.len()
        &&& self.last.start <= self.last.end <= self.bytes@.len()
    }

    pub fn new(src: &'a str) -> (r: Lexer<'a>)
        ensures
            r.wf(),
            r.source() == src.spec_bytes(),
            r.cursor() == 0,
            r.last_span() == (Span { start: 0, end: 0 }),
    {
        Lexer { text: src, bytes: src.as_bytes(), pos: 0, last: Span { start: 0, end: 0 } }
    }

    /// The next token, without consuming it: the lexer is left as it was.
    pub fn peek(&mut self) -> (r: Token)
        requires
            old(self).wf(),
        ensures
            *final(self) == *old(self),
            r == lex_at(old(self).source(), old(self).cursor()).0,
    {
        let (k, _) = lex_token(self.bytes, self.pos);
        k
    }

    /// The span of the last token produced by `next`.
    pub fn span(&self) -> (r: Span)
        ensures
            r == self.last_span(),
    {
        self.last
    }

    /// The text of the last token produced by `next`.
    pub fn slice(&self) -> (r: &'a [u8])
        requires
            self.wf(),
        ensures
            r@ == self.source().subrange(
                self.last_span().start as int,
                self.last_span().end as int,
            ),
    {
        vstd::slice::slice_subrange(self.bytes, self.last.start, self.last.end)
    }

    /// Consumes and returns the next token; past the end it is `Eof` forever.
    pub fn next(&mut self) -> (r: Token)
        requires
            old(self).wf(),
        ensures
            final(self).wf(),
            final(self).source() == old(self).source(),
            r == lex_at(old(self).source(), old(self).cursor()).0,
            final(self).last_span().start == lex_at(old(self).source(), old(self).cursor()).1,
            final(self).last_span().end == lex_at(old(self).source(), old(self).cursor()).2,
            final(self).cursor() == lex_at(old(self).source(), old(self).cursor()).2,
    {
        let (k, sp) = lex_token(self.bytes, self.pos);
        self.pos = sp.end;
        self.last = sp;
        k
    }
}

/// All tokens of `t` with their spans, the last one being `Eof`.
pub fn tokenize(t: &[u8]) -> (r: Vec<(Token, Span)>)
    ensures
        r@ == lex_from(t@, 0),
        r@.len() >= 1,
        forall|i: int| 0 <= i < r@.len() ==> (#[trigger] r@[i]).1.start <= r@[i].1.end <= t@.len(),
        forall|i: int|
            0 <= i < r@.len() && (r@[i].0 == Token::Ident || r@[i].0 == Token::Float) ==> is_ascii_range(
                t@,
                (#[trigger] r@[i]).1.start as int,
                r@[i].1.end as int,
            ),
{
    let mut out: Vec<(Token, Span)> = Vec::new();
    let mut pos: usize = 0;
    loop
        invariant
            pos <= t@.len(),
            out@ + lex_from(t@, pos as int) == lex_from(t@, 0),
            forall|i: int| 0 <= i < out@.len() ==> (#[trigger] out@[i]).1.start <= out@[i].1.end <= t@.len(),
            forall|i: int|
                0 <= i < out@.len() && (out@[i].0 == Token::Ident || out@[i].0 == Token::Float)
                    ==> is_ascii_range(t@, (#[trigger] out@[i]).1.start as int, out@[i].1.end as int),
        decreases t@.len() - pos,
    {
        let (k, sp) = lex_token(t, pos);
        let ghost rest = lex_from(t@, pos as int);
        proof {
            assert(rest == {
                let tok = (k, sp);
                if k == Token::Eof || sp.end <= pos || sp.end > t@.len() {
                    seq![tok]
                } else {
                    seq![tok] + lex_from(t@, sp.end as int)
                }
            });
        }
        out.push((k, sp));
        if k == Token::Eof {
            assert(out@ =~= lex_from(t@, 0));
            return out;
        }
        assert(out@ + lex_from(t@, sp.end as int) =~= lex_from(t@, 0));
        pos = sp.end;
    }
}

} // verus!
