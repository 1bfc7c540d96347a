use ku_syntax::cache::StringKey;
use ku_syntax::diagnostic::Code;
use ku_syntax::diagnostic::Diagnostic;
use ku_syntax::diagnostic::DiagnosticKind;
use ku_syntax::diagnostic::Diagnostics;
use ku_syntax::span::Span;

fn span(pos: usize, len: usize) -> Span {
    Span { file: StringKey(1), pos, len }
}

#[test]
fn every_code_is_an_error() {
    let codes = [
        Code::Unexpected,
        Code::IntegerTooLarge,
        Code::InvalidIntegerDigit,
        Code::InvalidIntegerBase,
    ];
    for code in codes {
        assert_eq!(DiagnosticKind::Error, code.kind());
    }
}

#[test]
fn diagnostics_are_kept_in_order() {
    let mut ds = Diagnostics::new();
    assert!(!ds.has_errors());
    ds.add(Code::Unexpected, span(1, 2), "first");
    ds.add(Code::IntegerTooLarge, span(3, 4), "");
    assert!(ds.has_errors());
    let expected = vec![
        Diagnostic { code: Code::Unexpected, span: span(1, 2), context: "first".to_string() },
        Diagnostic { code: Code::IntegerTooLarge, span: span(3, 4), context: String::new() },
    ];
    assert_eq!(expected, ds.into_vec());
}

#[test]
fn combine_appends_the_other_diagnostics() {
    let mut ds = Diagnostics::new();
    ds.add(Code::Unexpected, span(0, 1), "a");
    let mut scratch = Diagnostics::new();
    scratch.add(Code::InvalidIntegerDigit, span(5, 1), "b");
    scratch.add(Code::InvalidIntegerBase, span(6, 2), "0z");
    ds.combine(scratch);
    let reports = ds.into_vec();
    assert_eq!(3, reports.len());
    assert_eq!("a", reports[0].context);
    assert_eq!(Code::InvalidIntegerDigit, reports[1].code);
    assert_eq!(span(6, 2), reports[2].span);
    assert_eq!("0z", reports[2].context);

    let mut empty = Diagnostics::new();
    empty.combine(Diagnostics::new());
    assert!(!empty.has_errors());
}

#[test]
fn clear_removes_everything() {
    let mut ds = Diagnostics::new();
    ds.add(Code::Unexpected, span(0, 1), "a");
    ds.clear();
    assert!(!ds.has_errors());
    assert_eq!(Diagnostics::new(), ds);
}

#[test]
fn default_diagnostics_are_empty() {
    assert_eq!(Diagnostics::new(), Diagnostics::default());
    assert!(!Diagnostics::default().has_errors());
}
