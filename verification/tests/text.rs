use tinymetrics::text::u64_to_dec;

#[test]
fn decimal_rendering() {
    assert_eq!(u64_to_dec(0), "0");
    assert_eq!(u64_to_dec(7), "7");
    assert_eq!(u64_to_dec(10), "10");
    assert_eq!(u64_to_dec(407), "407");
    assert_eq!(u64_to_dec(1_000_000), "1000000");
    assert_eq!(u64_to_dec(u64::MAX), "18446744073709551615");
}
