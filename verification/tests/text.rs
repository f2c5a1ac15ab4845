use lottery::text::{decimal_text, parse_u8};

#[test]
fn decimal_text_of_small_numbers() {
    assert_eq!(decimal_text(0), "0");
    assert_eq!(decimal_text(7), "7");
    assert_eq!(decimal_text(9), "9");
}

#[test]
fn decimal_text_of_two_digits() {
    assert_eq!(decimal_text(10), "10");
    assert_eq!(decimal_text(42), "42");
    assert_eq!(decimal_text(99), "99");
}

#[test]
fn decimal_text_of_three_digits() {
    assert_eq!(decimal_text(100), "100");
    assert_eq!(decimal_text(101), "101");
    assert_eq!(decimal_text(110), "110");
    assert_eq!(decimal_text(255), "255");
}

#[test]
fn decimal_text_agrees_with_std_everywhere() {
    for n in 0..=255u8 {
        assert_eq!(decimal_text(n), n.to_string());
    }
}

#[test]
fn parse_u8_reads_numerals() {
    assert_eq!(parse_u8("0"), Some(0));
    assert_eq!(parse_u8("2"), Some(2));
    assert_eq!(parse_u8("17"), Some(17));
    assert_eq!(parse_u8("255"), Some(255));
}

#[test]
fn parse_u8_allows_one_plus_and_leading_zeros() {
    assert_eq!(parse_u8("+5"), Some(5));
    assert_eq!(parse_u8("+0"), Some(0));
    assert_eq!(parse_u8("007"), Some(7));
    assert_eq!(parse_u8("0000000255"), Some(255));
    assert_eq!(parse_u8("+000"), Some(0));
}

#[test]
fn parse_u8_refuses_what_is_out_of_range() {
    assert_eq!(parse_u8("256"), None);
    assert_eq!(parse_u8("300"), None);
    assert_eq!(parse_u8("1000"), None);
    assert_eq!(parse_u8("0000000256"), None);
    assert_eq!(parse_u8("99999999999999999999999999"), None);
}

#[test]
fn parse_u8_refuses_what_is_no_numeral() {
    assert_eq!(parse_u8(""), None);
    assert_eq!(parse_u8("+"), None);
    assert_eq!(parse_u8("-"), None);
    assert_eq!(parse_u8("-1"), None);
    assert_eq!(parse_u8("-0"), None);
    assert_eq!(parse_u8("++1"), None);
    assert_eq!(parse_u8("abc"), None);
    assert_eq!(parse_u8("1a"), None);
    assert_eq!(parse_u8("a1"), None);
    assert_eq!(parse_u8(" 1"), None);
    assert_eq!(parse_u8("1 "), None);
    assert_eq!(parse_u8("1_0"), None);
    assert_eq!(parse_u8("1.0"), None);
    assert_eq!(parse_u8("1+"), None);
    assert_eq!(parse_u8("\u{0663}"), None);
    assert_eq!(parse_u8("\u{ff11}"), None);
}

#[test]
fn parse_u8_agrees_with_std_on_numbers() {
    for n in 0..2000u32 {
        let plain = n.to_string();
        assert_eq!(parse_u8(&plain), plain.parse::<u8>().ok());
        let signed = format!("+{}", n);
        assert_eq!(parse_u8(&signed), signed.parse::<u8>().ok());
        let negative = format!("-{}", n);
        assert_eq!(parse_u8(&negative), negative.parse::<u8>().ok());
        let padded = format!("00{}", n);
        assert_eq!(parse_u8(&padded), padded.parse::<u8>().ok());
    }
}

#[test]
fn parse_u8_agrees_with_std_on_short_texts() {
    let alphabet = ['0', '1', '2', '5', '6', '9', '+', '-', ' ', 'a', '_', '.', '\u{e9}'];
    for a in alphabet {
        let one = a.to_string();
        assert_eq!(parse_u8(&one), one.parse::<u8>().ok());
        for b in alphabet {
            let two = format!("{}{}", a, b);
            assert_eq!(parse_u8(&two), two.parse::<u8>().ok());
            for c in alphabet {
                let three = format!("{}{}{}", a, b, c);
                assert_eq!(parse_u8(&three), three.parse::<u8>().ok());
                for d in alphabet {
                    let four = format!("{}{}{}{}", a, b, c, d);
                    assert_eq!(parse_u8(&four), four.parse::<u8>().ok());
                }
            }
        }
    }
}

#[test]
fn parse_u8_reads_back_what_decimal_text_writes() {
    for n in 0..=255u8 {
        assert_eq!(parse_u8(&decimal_text(n)), Some(n));
    }
}
