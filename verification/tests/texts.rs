use rsweb::number::{push_decimal, read_count};
use rsweb::text::{
    chars_of, find_from, has_char, is_text, is_white, split_char, split_lines, split_text,
    split_words, string_of, trim_text,
};

fn strings(parts: Vec<Vec<char>>) -> Vec<String> {
    parts.iter().map(|p| string_of(p)).collect()
}

#[test]
fn chars_and_back() {
    let v = chars_of("héllo");
    assert_eq!(v, vec!['h', 'é', 'l', 'l', 'o']);
    assert_eq!(string_of(&v), "héllo");
    assert!(is_text(&v, "héllo"));
    assert!(!is_text(&v, "hello"));
    assert!(!is_text(&v, "héll"));
    assert!(has_char(&v, 'é'));
    assert!(!has_char(&v, 'x'));
}

#[test]
fn finding() {
    let v = chars_of("a; b; c");
    let sep = chars_of("; ");
    assert_eq!(find_from(&v, &sep, 0), 1);
    assert_eq!(find_from(&v, &sep, 2), 4);
    assert_eq!(find_from(&v, &sep, 5), 7);
    assert_eq!(find_from(&v, &sep, 7), 7);
}

#[test]
fn splitting() {
    assert_eq!(strings(split_char(&chars_of("a:b::c"), ':')), vec!["a", "b", "", "c"]);
    assert_eq!(strings(split_char(&chars_of(""), ':')), vec![""]);
    assert_eq!(strings(split_char(&chars_of(":"), ':')), vec!["", ""]);
    assert_eq!(
        strings(split_text(&chars_of("a; b;c; "), &chars_of("; "))),
        vec!["a", "b;c", ""]
    );
    assert_eq!(
        strings(split_text(&chars_of("abc"), &chars_of(""))),
        vec!["abc"]
    );
}

#[test]
fn trimming() {
    assert_eq!(string_of(&trim_text(&chars_of("  a b \t\r\n"))), "a b");
    assert_eq!(string_of(&trim_text(&chars_of(" \u{a0}\u{3000} "))), "");
    assert_eq!(string_of(&trim_text(&chars_of(""))), "");
    assert_eq!(string_of(&trim_text(&chars_of("x"))), "x");
}

#[test]
fn white_space_is_that_of_std() {
    let mut c: u32 = 0;
    while c <= 0x3100 {
        if let Some(ch) = char::from_u32(c) {
            assert_eq!(is_white(ch), ch.is_whitespace());
        }
        c += 1;
    }
}

#[test]
fn words_and_lines() {
    assert_eq!(
        strings(split_words(&chars_of("  GET\t/a  HTTP/1.1 "))),
        vec!["GET", "/a", "HTTP/1.1"]
    );
    assert!(split_words(&chars_of(" \n ")).is_empty());
    for text in ["foo\nbar\n\r\nbaz\r", "a\r\n\r\nb", "", "\n", "x\n", "\r", "a\r\r\nb\n\n"] {
        let expected: Vec<String> = text.lines().map(|l| l.to_string()).collect();
        assert_eq!(strings(split_lines(&chars_of(text))), expected);
    }
    for text in ["", " a", "a  b ", "\u{2003}x\u{85}y"] {
        let expected: Vec<String> = text.split_whitespace().map(|l| l.to_string()).collect();
        assert_eq!(strings(split_words(&chars_of(text))), expected);
    }
}

#[test]
fn counts_read_as_std_reads_them() {
    for text in [
        "0", "7", "007", "+5", "+", "-", "-5", "", "12a", " 1", "1 ", "４",
        "18446744073709551615", "18446744073709551616", "99999999999999999999999",
    ] {
        assert_eq!(read_count(&chars_of(text)), text.parse::<usize>().ok());
    }
}

#[test]
fn counts_written_in_base_ten() {
    for n in [0usize, 1, 9, 10, 37, 100, 4096, usize::MAX] {
        let mut out = chars_of("n=");
        push_decimal(&mut out, n);
        assert_eq!(string_of(&out), format!("n={}", n));
        assert_eq!(read_count(&chars_of(&n.to_string())), Some(n));
    }
}
