use ku_syntax::cache::StringKey;
use ku_syntax::span::Span;
use ku_syntax::span::Spanned;

fn span(pos: usize, len: usize) -> Span {
    Span { file: StringKey(3), pos, len }
}

#[test]
fn new_span_is_empty() {
    assert_eq!(Span { file: StringKey::empty(), pos: 0, len: 0 }, Span::new());
}

#[test]
fn expand_covers_both_spans() {
    let mut a = span(4, 3);
    Span::expand(&mut a, span(10, 2));
    assert_eq!(span(4, 8), a);

    let mut a = span(10, 2);
    Span::expand(&mut a, span(4, 3));
    assert_eq!(span(4, 8), a);

    let mut a = span(4, 10);
    Span::expand(&mut a, span(6, 2));
    assert_eq!(span(4, 10), a);

    let mut a = span(4, 3);
    Span::expand(&mut a, span(5, 9));
    assert_eq!(span(4, 10), a);

    let mut a = span(7, 0);
    Span::expand(&mut a, span(7, 0));
    assert_eq!(span(7, 0), a);

    // an empty span far away still stretches the cover
    let mut a = span(0, 1);
    Span::expand(&mut a, span(9, 0));
    assert_eq!(span(0, 9), a);
}

#[test]
fn expand_is_commutative_and_associative() {
    let spans = [span(0, 0), span(3, 4), span(5, 1), span(20, 7), span(6, 30), span(2, 1)];
    for a in spans {
        for b in spans {
            let mut ab = a;
            Span::expand(&mut ab, b);
            let mut ba = b;
            Span::expand(&mut ba, a);
            assert_eq!(ab, ba);
            for c in spans {
                let mut left = ab;
                Span::expand(&mut left, c);
                let mut bc = b;
                Span::expand(&mut bc, c);
                let mut right = a;
                Span::expand(&mut right, bc);
                assert_eq!(left, right);
            }
        }
    }
}

#[test]
fn expand_reaches_the_last_position() {
    let mut a = span(usize::MAX - 1, 1);
    Span::expand(&mut a, span(0, 1));
    assert_eq!(span(0, usize::MAX), a);
}

#[test]
fn spanned_keeps_span_and_value() {
    let spanned = Spanned::from_span_value(span(1, 2), 'x');
    assert_eq!(span(1, 2), Spanned::span(&spanned));
    assert_eq!('x', *Spanned::value(&spanned));
    assert_eq!((span(1, 2), 'x'), spanned.into_span_value());
}

#[test]
fn default_span_is_the_new_span() {
    assert_eq!(Span::new(), Span::default());
}
