use typelox::text::decimal_width;
use typelox::text::push_decimal;
use typelox::text::push_hexadecimal;
use typelox::text::read_digit;

#[test]
fn decimal_is_written_without_leading_zeros() {
    for n in [0u128, 7, 10, 99, 100, 65535, 1 << 64, u128::MAX] {
        let mut out = String::from("n=");
        push_decimal(&mut out, n);
        assert_eq!(out, format!("n={}", n));
        assert_eq!(decimal_width(n), format!("{}", n).len());
    }
}

#[test]
fn hexadecimal_gives_the_lowest_digits() {
    let mut out = String::new();
    push_hexadecimal(&mut out, 0x0123_4567_89ab_cdef, 16);
    assert_eq!(out, "0123456789abcdef");
    let mut out = String::new();
    push_hexadecimal(&mut out, 0xabc, 2);
    assert_eq!(out, "bc");
    let mut out = String::from("-");
    push_hexadecimal(&mut out, 0xabc, 0);
    assert_eq!(out, "-");
    let mut out = String::new();
    push_hexadecimal(&mut out, 5, 20);
    assert_eq!(out, "00000000000000000005");
}

#[test]
fn digits_are_read() {
    let digits = "0123456789abcdef";
    for (value, c) in digits.chars().enumerate() {
        assert_eq!(read_digit(c), Some(value as u8));
    }
    for c in ['A', 'F', 'g', ' ', '/', ':', '`', 'é', '\u{0661}'] {
        assert_eq!(read_digit(c), None);
    }
}
