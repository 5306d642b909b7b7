use icecast_influx::decimal::{append_decimal, parse_i16};

#[test]
fn plain_numbers_are_read() {
    assert_eq!(parse_i16("0"), Some(0));
    assert_eq!(parse_i16("8000"), Some(8000));
    assert_eq!(parse_i16("8086"), Some(8086));
    assert_eq!(parse_i16("32767"), Some(32767));
    assert_eq!(parse_i16("-32768"), Some(-32768));
    assert_eq!(parse_i16("+80"), Some(80));
    assert_eq!(parse_i16("-0"), Some(0));
    assert_eq!(parse_i16("000080"), Some(80));
    assert_eq!(parse_i16("-000000000000000000000000000001"), Some(-1));
}

#[test]
fn what_is_no_number_is_refused() {
    for text in [
        "", "+", "-", " 80", "80 ", "8 0", "80a", "a80", "--1", "+-1", "1_000", "0x50", "8.0",
        "1e3", "٣", "８０", "80\n", "é",
    ] {
        assert_eq!(parse_i16(text), None, "{:?}", text);
    }
}

#[test]
fn what_does_not_fit_is_refused() {
    for text in [
        "32768", "-32769", "65535", "99999", "100000", "-100000",
        "340282366920938463463374607431768211456", "0000000000000000000000032768",
    ] {
        assert_eq!(parse_i16(text), None, "{:?}", text);
    }
}

#[test]
fn reading_agrees_with_the_standard_library() {
    let mut texts: Vec<String> = Vec::new();
    for n in -70000i64..=70000 {
        if n % 7 == 0 || n.abs() < 300 || (n.abs() > 32700 && n.abs() < 32800) {
            texts.push(n.to_string());
            texts.push(format!("+{}", n));
            texts.push(format!("0{}", n));
            texts.push(format!("{} ", n));
        }
    }
    for text in texts {
        assert_eq!(parse_i16(&text), text.parse::<i16>().ok(), "{:?}", text);
    }
}

#[test]
fn every_port_is_written_as_the_standard_library_writes_it() {
    for n in i16::MIN..=i16::MAX {
        let mut out = String::from("x");
        append_decimal(&mut out, n);
        assert_eq!(out, format!("x{}", n));
    }
}

#[test]
fn written_numbers_are_exact() {
    let mut out = String::new();
    append_decimal(&mut out, 0);
    out.push(' ');
    append_decimal(&mut out, -32768);
    out.push(' ');
    append_decimal(&mut out, 32767);
    out.push(' ');
    append_decimal(&mut out, 1000);
    out.push(' ');
    append_decimal(&mut out, -7);
    assert_eq!(out, "0 -32768 32767 1000 -7");
}

#[test]
fn what_is_written_is_read_back() {
    for n in i16::MIN..=i16::MAX {
        let mut out = String::new();
        append_decimal(&mut out, n);
        assert_eq!(parse_i16(&out), Some(n));
    }
}
