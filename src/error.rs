use vstd::prelude::*;
use crate::grammar::ErrV;
use crate::sources::SourceKey;
use crate::span::{CodeArea, Span};
use crate::tokens::{token_name, Token};

verus! {

/// The severity of a report.
#[derive(Clone, Copy, PartialEq, Eq, Structural, Debug, Hash)]
pub enum ReportType {
    Error,
    Warning,
}

/// A diagnostic ready to be shown: a title, a severity, and messages anchored
/// to areas of the sources.
#[derive(Debug)]
pub struct Report {
    pub title: String,
    pub typ: ReportType,
    pub messages: Vec<(CodeArea, String)>,
}

/// A grammar violation found by the parser.
#[derive(Debug)]
pub enum ParserError {
    Expected { expected: String, found: Token, area: CodeArea },
}

/// A non-fatal notice of the parser.
#[derive(Debug)]
pub enum ParserWarning {
    Blibby { v: CodeArea, sog: String },
}

impl ParserError {
    pub open spec fn view(self) -> ErrV {
        match self {
            ParserError::Expected { expected, found, area } => ErrV {
                expected: expected@,
                found,
                span: area.span,
            },
        }
    }

    pub open spec fn source(self) -> SourceKey {
        match self {
            ParserError::Expected { area, .. } => area.src,
        }
    }
}

/// ANSI: start bold text.
pub open spec fn ansi_bold() -> Seq<char> {
    seq!['\x1b', '[', '1', 'm']
}

/// ANSI: reset every style.
pub open spec fn ansi_reset() -> Seq<char> {
    seq!['\x1b', '[', '0', 'm']
}

/// ANSI: start the foreground colour with the given code.
pub open spec fn ansi_fg(code: Seq<char>) -> Seq<char> {
    seq!['\x1b', '['] + code + seq!['m']
}

/// ANSI: back to the default foreground colour.
pub open spec fn ansi_fg_default() -> Seq<char> {
    seq!['\x1b', '[', '3', '9', 'm']
}

pub open spec fn bold(s: Seq<char>) -> Seq<char> {
    ansi_bold() + s + ansi_reset()
}

pub open spec fn coloured(code: Seq<char>, s: Seq<char>) -> Seq<char> {
    ansi_fg(code) + s + ansi_fg_default()
}

pub open spec fn bright_red_code() -> Seq<char> {
    seq!['9', '1']
}

pub open spec fn bright_yellow_code() -> Seq<char> {
    seq!['9', '3']
}

pub open spec fn bright_white_code() -> Seq<char> {
    seq!['9', '7']
}

/// Relies on owo_colors' `bold`: its Display writes `ESC[1m`, the text, `ESC[0m`.
#[verifier::external_body]
fn paint_bold(s: &str) -> (r: String)
    ensures
        r@ == bold(s@),
{
    owo_colors::OwoColorize::bold(&s).to_string()
}

/// Relies on owo_colors' `bright_red`: its Display writes `ESC[91m`, the text, `ESC[39m`.
#[verifier::external_body]
fn paint_bright_red(s: &str) -> (r: String)
    ensures
        r@ == coloured(bright_red_code(), s@),
{
    owo_colors::OwoColorize::bright_red(&s).to_string()
}

/// Relies on owo_colors' `bright_yellow`: its Display writes `ESC[93m`, the text, `ESC[39m`.
#[verifier::external_body]
fn paint_bright_yellow(s: &str) -> (r: String)
    ensures
        r@ == coloured(bright_yellow_code(), s@),
{
    owo_colors::OwoColorize::bright_yellow(&s).to_string()
}

/// Relies on owo_colors' `bright_white`: its Display writes `ESC[97m`, the text, `ESC[39m`.
#[verifier::external_body]
fn paint_bright_white(s: &str) -> (r: String)
    ensures
        r@ == coloured(bright_white_code(), s@),
{
    owo_colors::OwoColorize::bright_white(&s).to_string()
}

pub open spec fn report_type_label(t: ReportType) -> Seq<char> {
    match t {
        ReportType::Error => bold(coloured(bright_red_code(), "error:"@)),
        ReportType::Warning => bold(coloured(bright_yellow_code(), "warning:"@)),
    }
}

impl ReportType {
    /// The coloured label that opens a report of this severity.
    pub fn display_str(self) -> (r: String)
        ensures
            r@ == report_type_label(self),
    {
        match self {
            ReportType::Error => {
                let red = paint_bright_red("error:");
                paint_bold(red.as_str())
            },
            ReportType::Warning => {
                let yellow = paint_bright_yellow("warning:");
                paint_bold(yellow.as_str())
            },
        }
    }
}

/// The title of an "Expected X, found Y" report.
pub open spec fn expected_title(expected: Seq<char>, found: Token) -> Seq<char> {
    "Expected "@ + expected + ", found `"@ + token_name(found) + "`"@
}

/// The message of an "Expected X, found Y" report.
pub open spec fn expected_message(expected: Seq<char>) -> Seq<char> {
    "Expected "@ + coloured(bright_white_code(), expected)
}

pub open spec fn warning_title() -> Seq<char> {
    "Gaga"@
}

impl ParserError {
    /// The report that shows this error.
    pub fn into_report(self) -> (r: Report)
        ensures
            r.typ == ReportType::Error,
            match self {
                ParserError::Expected { expected, found, area } => {
                    &&& r.title@ == expected_title(expected@, found)
                    &&& r.messages@.len() == 1
                    &&& r.messages@[0].0 == area
                    &&& r.messages@[0].1@ == expected_message(expected@)
                },
            },
    {
        match self {
            ParserError::Expected { expected, found, area } => {
                let mut title = "Expected ".to_owned();
                title.append(expected.as_str());
                title.append(", found `");
                title.append(found.name());
                title.append("`");
                let mut msg = "Expected ".to_owned();
                let shown = paint_bright_white(expected.as_str());
                msg.append(shown.as_str());
                let mut messages: Vec<(CodeArea, String)> = Vec::new();
                messages.push((area, msg));
                Report { title, typ: ReportType::Error, messages }
            },
        }
    }
}

impl ParserWarning {
    /// The report that shows this warning.
    pub fn into_report(self) -> (r: Report)
        ensures
            r.typ == ReportType::Warning,
            r.title@ == warning_title(),
            match self {
                ParserWarning::Blibby { v, sog } => {
                    &&& r.messages@.len() == 1
                    &&& r.messages@[0].0 == v
                    &&& r.messages@[0].1@ == coloured(bright_white_code(), sog@)
                },
            },
    {
        match self {
            ParserWarning::Blibby { v, sog } => {
                let title = "Gaga".to_owned();
                let msg = paint_bright_white(sog.as_str());
                let mut messages: Vec<(CodeArea, String)> = Vec::new();
                messages.push((v, msg));
                Report { title, typ: ReportType::Warning, messages }
            },
        }
    }
}

/// The sources that messages point into, each once, in order of first appearance.
pub open spec fn sources_in_order(ms: Seq<(CodeArea, String)>) -> Seq<SourceKey>
    decreases ms.len(),
{
    if ms.len() == 0 {
        seq![]
    } else {
        let prev = sources_in_order(ms.drop_last());
        if prev.contains(ms.last().0.src) {
            prev
        } else {
            prev.push(ms.last().0.src)
        }
    }
}

/// The messages that point into `k`, in order, with their spans.
pub open spec fn messages_for(ms: Seq<(CodeArea, String)>, k: SourceKey) -> Seq<(Span, Seq<char>)>
    decreases ms.len(),
{
    if ms.len() == 0 {
        seq![]
    } else {
        let prev = messages_for(ms.drop_last(), k);
        if ms.last().0.src == k {
            prev.push((ms.last().0.span, ms.last().1@))
        } else {
            prev
        }
    }
}

pub open spec fn report_header(typ: ReportType, title: Seq<char>) -> Seq<char> {
    report_type_label(typ) + " "@ + coloured(bright_white_code(), title)
}

impl Report {
    /// The first line of the report: its coloured severity and title.
    pub fn header(&self) -> (r: String)
        ensures
            r@ == report_header(self.typ, self.title@),
    {
        let mut h = self.typ.display_str();
        h.append(" ");
        let t = paint_bright_white(self.title.as_str());
        h.append(t.as_str());
        h
    }

    /// The sources that the messages point into, each once, in order of first
    /// appearance.
    pub fn sources(&self) -> (r: Vec<SourceKey>)
        ensures
            r@ == sources_in_order(self.messages@),
    {
        let mut out: Vec<SourceKey> = Vec::new();
        let mut i: usize = 0;
        while i < self.messages.len()
            invariant
                i <= self.messages@.len(),
                out@ == sources_in_order(self.messages@.subrange(0, i as int)),
            decreases self.messages@.len() - i,
        {
            let k = self.messages[i].0.src;
            let mut j: usize = 0;
            let mut seen = false;
            while j < out.len()
                invariant
                    j <= out@.len(),
                    seen == out@.subrange(0, j as int).contains(k),
                decreases out@.len() - j,
            {
                if out[j] == k {
                    seen = true;
                }
                proof {
                    let a = out@.subrange(0, j as int);
                    let b = out@.subrange(0, j as int + 1);
                    assert(b =~= a.push(out@[j as int]));
                    if b.contains(k) {
                        let w = choose|w: int| 0 <= w < b.len() && b[w] == k;
                        if w < j {
                            assert(a[w] == k);
                        }
                    }
                    if a.contains(k) {
                        let w = choose|w: int| 0 <= w < a.len() && a[w] == k;
                        assert(b[w] == k);
                    }
                    if out@[j as int] == k {
                        assert(b[j as int] == k);
                    }
                }
                j = j + 1;
            }
            assert(out@.subrange(0, j as int) =~= out@);
            proof {
                let p = self.messages@.subrange(0, i as int + 1);
                assert(p.drop_last() =~= self.messages@.subrange(0, i as int));
            }
            if !seen {
                out.push(k);
            }
            i = i + 1;
        }
        assert(self.messages@.subrange(0, i as int) =~= self.messages@);
        out
    }

    /// The messages that point into `src`, in order, with their spans.
    pub fn messages_in(&self, src: SourceKey) -> (r: Vec<(Span, String)>)
        ensures
            r@.len() == messages_for(self.messages@, src).len(),
            forall|i: int|
                0 <= i < r@.len() ==> (#[trigger] r@[i]).0 == messages_for(self.messages@, src)[i].0
                    && r@[i].1@ == messages_for(self.messages@, src)[i].1,
    {
        let mut out: Vec<(Span, String)> = Vec::new();
        let mut i: usize = 0;
        while i < self.messages.len()
            invariant
                i <= self.messages@.len(),
                out@.len() == messages_for(self.messages@.subrange(0, i as int), src).len(),
                forall|j: int|
                    0 <= j < out@.len() ==> (#[trigger] out@[j]).0 == messages_for(
                        self.messages@.subrange(0, i as int),
                        src,
                    )[j].0 && out@[j].1@ == messages_for(self.messages@.subrange(0, i as int), src)[j].1,
            decreases self.messages@.len() - i,
        {
            proof {
                let p = self.messages@.subrange(0, i as int + 1);
                assert(p.drop_last() =~= self.messages@.subrange(0, i as int));
            }
            if self.messages[i].0.src == src {
                let text = self.messages[i].1.clone();
                out.push((self.messages[i].0.span, text));
            }
            i = i + 1;
        }
        assert(self.messages@.subrange(0, i as int) =~= self.messages@);
        out
    }
}

} // verus!
