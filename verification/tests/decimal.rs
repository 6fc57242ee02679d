use virtualserial::decimal::{format_i32, parse_i32, parse_i32_chars, parse_id};
use virtualserial::text::{from_chars, is_whitespace, to_chars, trim_chars};

#[test]
fn writes_small_numbers() {
    assert_eq!(format_i32(0), "0");
    assert_eq!(format_i32(7), "7");
    assert_eq!(format_i32(10), "10");
    assert_eq!(format_i32(4242), "4242");
    assert_eq!(format_i32(9600), "9600");
}

#[test]
fn writes_negative_numbers() {
    assert_eq!(format_i32(-1), "-1");
    assert_eq!(format_i32(-120), "-120");
}

#[test]
fn writes_the_extremes() {
    assert_eq!(format_i32(i32::MAX), "2147483647");
    assert_eq!(format_i32(i32::MIN), "-2147483648");
}

#[test]
fn writes_as_the_standard_library_does() {
    for n in [0, 1, -1, 9, 10, 99, 100, 101, 65535, -65536, 1000000007, i32::MAX, i32::MIN] {
        assert_eq!(format_i32(n), n.to_string());
    }
}

#[test]
fn reads_plain_numbers() {
    assert_eq!(parse_i32("0"), Some(0));
    assert_eq!(parse_i32("42"), Some(42));
    assert_eq!(parse_i32("9600"), Some(9600));
}

#[test]
fn reads_signs() {
    assert_eq!(parse_i32("+42"), Some(42));
    assert_eq!(parse_i32("-42"), Some(-42));
    assert_eq!(parse_i32("-0"), Some(0));
}

#[test]
fn reads_leading_zeros() {
    assert_eq!(parse_i32("007"), Some(7));
    assert_eq!(parse_i32("000000000000000000000000000001"), Some(1));
    assert_eq!(parse_i32("-00000000000002147483648"), Some(i32::MIN));
}

#[test]
fn reads_the_extremes() {
    assert_eq!(parse_i32("2147483647"), Some(i32::MAX));
    assert_eq!(parse_i32("-2147483648"), Some(i32::MIN));
}

#[test]
fn rejects_numbers_out_of_range() {
    assert_eq!(parse_i32("2147483648"), None);
    assert_eq!(parse_i32("-2147483649"), None);
    assert_eq!(parse_i32("99999999999999999999"), None);
    assert_eq!(parse_i32("21474836470"), None);
}

#[test]
fn rejects_what_is_no_number() {
    assert_eq!(parse_i32(""), None);
    assert_eq!(parse_i32("-"), None);
    assert_eq!(parse_i32("+"), None);
    assert_eq!(parse_i32("12a"), None);
    assert_eq!(parse_i32("a12"), None);
    assert_eq!(parse_i32(" 5"), None);
    assert_eq!(parse_i32("5 "), None);
    assert_eq!(parse_i32("--5"), None);
    assert_eq!(parse_i32("1-5"), None);
    assert_eq!(parse_i32("١٢"), None);
}

#[test]
fn reads_as_the_standard_library_does() {
    for s in ["0", "-0", "+0", "17", "+17", "-17", "", "+", "-", "1e3", "0x10", "2147483647",
        "2147483648", "-2147483648", "-2147483649", "00012", "12 ", "1_000"] {
        assert_eq!(parse_i32(s), s.parse::<i32>().ok(), "{s:?}");
    }
}

#[test]
fn reading_undoes_writing() {
    for n in [0, 5, -5, 10, 4242, 123456789, -987654321, i32::MAX, i32::MIN] {
        assert_eq!(parse_i32(&format_i32(n)), Some(n));
    }
}

#[test]
fn reads_characters() {
    assert_eq!(parse_i32_chars(&vec!['-', '3', '1']), Some(-31));
    assert_eq!(parse_i32_chars(&vec![]), None);
}

#[test]
fn reads_an_id_with_its_line_break() {
    assert_eq!(parse_id("1000\n"), Some(1000));
    assert_eq!(parse_id("0\n"), Some(0));
    assert_eq!(parse_id("  501 \t\r\n"), Some(501));
    assert_eq!(parse_id("20"), Some(20));
}

#[test]
fn rejects_what_is_no_id() {
    assert_eq!(parse_id(""), None);
    assert_eq!(parse_id("\n"), None);
    assert_eq!(parse_id("root\n"), None);
    assert_eq!(parse_id("10 00\n"), None);
}

#[test]
fn characters_of_a_string() {
    assert_eq!(to_chars("a b"), vec!['a', ' ', 'b']);
    assert_eq!(to_chars(""), Vec::<char>::new());
    assert_eq!(to_chars("größe"), vec!['g', 'r', 'ö', 'ß', 'e']);
}

#[test]
fn string_of_characters() {
    assert_eq!(from_chars(&vec!['/', 't', 'm', 'p']), "/tmp");
    assert_eq!(from_chars(&vec![]), "");
    assert_eq!(from_chars(&to_chars("pfad/ä/€")), "pfad/ä/€");
}

#[test]
fn white_space_is_what_the_standard_library_says() {
    let mut code: u32 = 0;
    while code <= 0x3100 {
        if let Some(c) = char::from_u32(code) {
            assert_eq!(is_whitespace(c), c.is_whitespace(), "{code:x}");
        }
        code += 1;
    }
}

#[test]
fn trims_both_ends() {
    assert_eq!(from_chars(&trim_chars(&to_chars("  a b \n"))), "a b");
    assert_eq!(from_chars(&trim_chars(&to_chars("\u{a0}x\u{3000}"))), "x");
    assert_eq!(from_chars(&trim_chars(&to_chars(" \t\n"))), "");
    assert_eq!(from_chars(&trim_chars(&to_chars(""))), "");
    assert_eq!(from_chars(&trim_chars(&to_chars("abc"))), "abc");
}

#[test]
fn trims_as_the_standard_library_does() {
    for s in ["", " ", "a", " a", "a ", "\t\ta b\r\n", "\u{2003}x y\u{2028}", "\u{200b}z "] {
        assert_eq!(from_chars(&trim_chars(&to_chars(s))), s.trim(), "{s:?}");
    }
}
