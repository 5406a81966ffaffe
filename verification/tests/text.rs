//! Decimal numerals.

use praxis_openai::text::decimal_text;

#[test]
fn numerals_match_the_standard_ones() {
    for n in [0, 1, 9, 10, 11, 99, 100, 101, 1234567890, u64::MAX - 1, u64::MAX] {
        assert_eq!(decimal_text(n), n.to_string());
    }
}
