use shid::error::{ParserError, ParserWarning, Report, ReportType};
use shid::parser::Parser;
use shid::sources::{Source, SourceMap};
use shid::span::{Span, Spannable, Spanned};
use shid::tokens::Token;

#[test]
fn extend_takes_min_and_max() {
    let a = Span::new(3, 7);
    let b = Span::new(1, 5);
    assert_eq!(a.extended(b), Span::new(1, 7));
    assert_eq!(b.extended(a), Span::new(1, 7));
    let c = Span::new(6, 9);
    assert_eq!(a.extended(b).extended(c), a.extended(b.extended(c)));
    assert_eq!(a.extended(a), a);
}

#[test]
fn map_keeps_span() {
    let s = Spanned { val: 20, span: Span::new(2, 4) };
    let t = s.map(|v| v + 1);
    assert_eq!(t.val, 21);
    assert_eq!(t.span, Span::new(2, 4));
}

#[test]
fn registry_keeps_sources() {
    let mut m = SourceMap::new();
    let a = m.insert(Source::new("a".to_string(), "1".to_string()));
    let b = m.insert(Source::new("b".to_string(), "2".to_string()));
    assert_ne!(a, b);
    assert_eq!(m.get(a).content, "1");
    assert_eq!(m.get(b).path, "b");
}

#[test]
fn severity_labels() {
    assert_eq!(ReportType::Error.display_str(), "\x1b[1m\x1b[91merror:\x1b[39m\x1b[0m");
    assert_eq!(ReportType::Warning.display_str(), "\x1b[1m\x1b[93mwarning:\x1b[39m\x1b[0m");
}

#[test]
fn expected_error_report() {
    let mut m = SourceMap::new();
    let mut p = Parser::new(Source::new("t".to_string(), "1+".to_string()), &mut m);
    p.parse_expr();
    let src = p.src;
    let mut errors = p.errors;
    assert_eq!(errors.len(), 1);
    let r = errors.remove(0).into_report();
    assert_eq!(r.typ, ReportType::Error);
    assert_eq!(r.title, "Expected expression, found `end of file`");
    assert_eq!(r.messages.len(), 1);
    assert_eq!(r.messages[0].0.span, Span::new(2, 2));
    assert_eq!(r.messages[0].0.src, src);
    assert_eq!(r.messages[0].1, "Expected \x1b[97mexpression\x1b[39m");
    assert_eq!(r.header(), "\x1b[1m\x1b[91merror:\x1b[39m\x1b[0m \x1b[97mExpected expression, found `end of file`\x1b[39m");
}

#[test]
fn warning_report() {
    let mut m = SourceMap::new();
    let k = m.insert(Source::new("t".to_string(), "x".to_string()));
    let w = ParserWarning::Blibby { v: Span::new(0, 1).to_area(k), sog: "note".to_string() };
    let r = w.into_report();
    assert_eq!(r.typ, ReportType::Warning);
    assert_eq!(r.title, "Gaga");
    assert_eq!(r.messages[0].1, "\x1b[97mnote\x1b[39m");
}

#[test]
fn messages_grouped_by_first_appearance() {
    let mut m = SourceMap::new();
    let a = m.insert(Source::new("a".to_string(), "aaaa".to_string()));
    let b = m.insert(Source::new("b".to_string(), "bbbb".to_string()));
    let r = Report {
        title: "t".to_string(),
        typ: ReportType::Error,
        messages: vec![
            (Span::new(0, 1).to_area(b), "one".to_string()),
            (Span::new(1, 2).to_area(a), "two".to_string()),
            (Span::new(2, 3).to_area(b), "three".to_string()),
        ],
    };
    assert_eq!(r.sources(), vec![b, a]);
    let in_b = r.messages_in(b);
    assert_eq!(in_b, vec![(Span::new(0, 1), "one".to_string()), (Span::new(2, 3), "three".to_string())]);
    assert_eq!(r.messages_in(a), vec![(Span::new(1, 2), "two".to_string())]);
    assert_eq!(r.sources(), r.sources());
    let e = ParserError::Expected { expected: "x".to_string(), found: Token::Comma, area: Span::new(0, 0).to_area(a) };
    assert_eq!(e.into_report().title, "Expected x, found `,`");
}

#[test]
fn span_from_range_and_spanned_values() {
    let s: Span = (2..5).into();
    assert_eq!(s, Span::new(2, 5));
    let t = 7u8.spanned(s);
    assert_eq!(t.val, 7);
    assert_eq!(t.span, s);
}
