use sort_it_now::fixed::isqrt;
use sort_it_now::text::{fixed_to_string, parse_u64, to_chars, trim_range};

#[test]
fn fixed_point_numbers_as_text() {
    assert_eq!(fixed_to_string(0), "0");
    assert_eq!(fixed_to_string(1), "0.000001");
    assert_eq!(fixed_to_string(-1), "-0.000001");
    assert_eq!(fixed_to_string(1_000_000), "1");
    assert_eq!(fixed_to_string(-10_000_000), "-10");
    assert_eq!(fixed_to_string(20_400_000), "20.4");
    assert_eq!(fixed_to_string(1_000_100), "1.0001");
    assert_eq!(fixed_to_string(123_456_789), "123.456789");
    assert_eq!(fixed_to_string(i64::MAX), "9223372036854.775807");
    assert_eq!(fixed_to_string(i64::MIN), "-9223372036854.775808");
}

#[test]
fn unsigned_numbers_are_read_as_the_standard_library_reads_them() {
    for text in
        ["0", "7", "007", "+5", "+", "", "-1", "1 ", " 1", "18446744073709551615",
         "18446744073709551616", "99999999999999999999999", "12a", "１２", "+-1", "++1"]
    {
        assert_eq!(parse_u64(text), text.parse::<u64>().ok(), "for {:?}", text);
    }
}

#[test]
fn trimming_agrees_with_the_standard_library() {
    for text in ["", " ", "a", "  a b \t\r\n", "\u{3000}x\u{85}", "\u{200b} y ", "\u{1680}\u{2028}"] {
        let chars = to_chars(text);
        let (a, b) = trim_range(&chars, 0, chars.len());
        let got: String = chars[a..b].iter().collect();
        assert_eq!(got, text.trim(), "for {:?}", text);
    }
}

#[test]
fn integer_square_root_is_rounded_down() {
    assert_eq!(isqrt(0), 0);
    assert_eq!(isqrt(1), 1);
    assert_eq!(isqrt(3), 1);
    assert_eq!(isqrt(4), 2);
    assert_eq!(isqrt(24), 4);
    assert_eq!(isqrt(25), 5);
    assert_eq!(isqrt(u128::MAX), u64::MAX);
    assert_eq!(isqrt(1u128 << 126), 1u64 << 63);
}
