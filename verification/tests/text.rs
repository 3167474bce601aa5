use no_sleep_till_done::number::{decimal_of, push_signed_decimal, read_decimal, read_hex_pair};
use no_sleep_till_done::text::{
    chars_of, has_text, is_whitespace, lines_of, string_of, trimmed, trimmed_end, trimmed_start, words_of,
};

fn samples() -> Vec<&'static str> {
    vec![
        "",
        " ",
        "\n",
        "\r\n",
        "a",
        " a b\tc ",
        "one\ntwo\r\nthree",
        "one\n\ntwo\n",
        "a\r",
        "a\r\r\n\rb\n\n",
        "\u{a0}x\u{2003}\u{3000}",
        "\u{200b}zero width\u{200b}",
        "é ü\u{2028}ß",
        "trailing\n",
    ]
}

#[test]
fn white_space_is_that_of_the_standard_library() {
    let mut code: u32 = 0;
    while code <= 0x10ffff {
        if let Some(c) = char::from_u32(code) {
            assert_eq!(is_whitespace(c), c.is_whitespace(), "{code:x}");
        }
        code += 1;
    }
}

#[test]
fn trimming_is_that_of_the_standard_library() {
    for s in samples() {
        let v = chars_of(s);
        assert_eq!(string_of(trimmed(&v)), s.trim());
        assert_eq!(string_of(trimmed_start(&v)), s.trim_start());
        assert_eq!(string_of(trimmed_end(&v)), s.trim_end());
    }
}

#[test]
fn lines_are_those_of_the_standard_library() {
    for s in samples() {
        let v = chars_of(s);
        let ours: Vec<String> = lines_of(&v).into_iter().map(string_of).collect();
        let theirs: Vec<String> = s.lines().map(|l| l.to_string()).collect();
        assert_eq!(ours, theirs, "{s:?}");
    }
}

#[test]
fn words_are_those_of_the_standard_library() {
    for s in samples() {
        let v = chars_of(s);
        let ours: Vec<String> = words_of(&v).into_iter().map(string_of).collect();
        let theirs: Vec<String> = s.split_whitespace().map(|l| l.to_string()).collect();
        assert_eq!(ours, theirs, "{s:?}");
    }
}

#[test]
fn searching_is_that_of_the_standard_library() {
    for s in samples() {
        for p in ["", "a", "\n", "two", "one\ntwo", "é ", "zero width"] {
            assert_eq!(has_text(&chars_of(s), &chars_of(p)), s.contains(p), "{s:?} {p:?}");
        }
    }
}

#[test]
fn numbers_are_written_in_decimal() {
    for n in [0u128, 1, 9, 10, 99, 100, 4242, u64::MAX as u128, u128::MAX] {
        assert_eq!(decimal_of(n), n.to_string());
    }
    for i in [0i32, 1, -1, 10, -10, i32::MAX, i32::MIN] {
        let mut s = String::new();
        push_signed_decimal(&mut s, i);
        assert_eq!(s, i.to_string());
    }
}

#[test]
fn numbers_are_read_as_the_standard_library_does() {
    for s in [
        "", "+", "-", "0", "00", "7", "+7", "++7", "-7", "-0", "12a", " 1", "1 ", "255", "256", "4294967295",
        "4294967296", "18446744073709551615", "18446744073709551616", "99999999999999999999999", "１",
    ] {
        let v = chars_of(s);
        assert_eq!(read_decimal(&v, u64::MAX), s.parse::<u64>().ok(), "{s:?}");
        assert_eq!(read_decimal(&v, 255), s.parse::<u8>().ok().map(u64::from), "{s:?}");
        assert_eq!(
            read_decimal(&v, u64::from(u32::MAX)),
            s.parse::<u32>().ok().map(u64::from),
            "{s:?}"
        );
    }
}

#[test]
fn hexadecimal_pairs_are_read_as_the_standard_library_does() {
    let chars = ['0', '9', 'a', 'f', 'g', 'A', 'F', 'G', '+', '-', ' ', 'é'];
    for a in chars {
        for b in chars {
            let s: String = [a, b].iter().collect();
            assert_eq!(read_hex_pair(a, b), u8::from_str_radix(&s, 16).ok(), "{s:?}");
        }
    }
}
