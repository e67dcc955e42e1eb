use iex_deep_parser::number::fmt;

#[test]
fn digits_are_grouped_by_three() {
    assert_eq!(fmt(0), "0");
    assert_eq!(fmt(7), "7");
    assert_eq!(fmt(42), "42");
    assert_eq!(fmt(999), "999");
    assert_eq!(fmt(1_000), "1_000");
    assert_eq!(fmt(1_001), "1_001");
    assert_eq!(fmt(12_345), "12_345");
    assert_eq!(fmt(100_000), "100_000");
    assert_eq!(fmt(1_234_567), "1_234_567");
    assert_eq!(fmt(1_000_000_000), "1_000_000_000");
}

#[test]
fn grouping_keeps_the_digits() {
    for n in [0usize, 10, 100, 1_000, 98_765, 500_000, 4_294_967_295, usize::MAX] {
        let text = fmt(n);
        assert_eq!(text.replace('_', ""), n.to_string());
        assert!(!text.starts_with('_'));
        for (i, c) in text.chars().rev().enumerate() {
            assert_eq!(c == '_', i % 4 == 3);
        }
    }
}
