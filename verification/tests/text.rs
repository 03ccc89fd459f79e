use docker_exporter::text::{
    is_white_space, join_lines, lines, same_text, signed_text, trim_leading_slashes, unsigned_text,
    words,
};

#[test]
fn decimal_numbers_read_back() {
    assert_eq!(unsigned_text(0), "0");
    assert_eq!(unsigned_text(9), "9");
    assert_eq!(unsigned_text(10), "10");
    assert_eq!(unsigned_text(1_048_576), "1048576");
    assert_eq!(unsigned_text(u64::MAX), "18446744073709551615");
    assert_eq!(signed_text(0), "0");
    assert_eq!(signed_text(-1), "-1");
    assert_eq!(signed_text(-120), "-120");
    assert_eq!(signed_text(i64::MAX), "9223372036854775807");
    assert_eq!(signed_text(i64::MIN), "-9223372036854775808");
    for n in [0u64, 7, 99, 100, 12_345, u64::MAX] {
        assert_eq!(unsigned_text(n).parse::<u64>(), Ok(n));
    }
}

#[test]
fn lines_end_in_line_feeds() {
    assert_eq!(lines(""), Vec::<String>::new());
    assert_eq!(lines("a"), vec!["a"]);
    assert_eq!(lines("a\n"), vec!["a"]);
    assert_eq!(lines("a\r\nb\n\nc"), vec!["a", "b", "", "c"]);
    assert_eq!(lines("\n"), vec![""]);
    assert_eq!(lines("a\r"), vec!["a\r"]);
    assert_eq!(lines("a\r\r\nb\rc\r\n"), vec!["a\r", "b\rc"]);
}

#[test]
fn lines_agree_with_std() {
    let pieces = ["", "a", "\n", "\r", "\r\n", "é"];
    for a in pieces {
        for b in pieces {
            for c in pieces {
                for d in pieces {
                    let text = format!("{}{}{}{}", a, b, c, d);
                    let expected: Vec<&str> = text.lines().collect();
                    assert_eq!(lines(&text), expected, "{:?}", text);
                }
            }
        }
    }
}

#[test]
fn words_agree_with_std() {
    let pieces = ["", "a", "GET", " ", "\t", "\u{3000}", "é"];
    for a in pieces {
        for b in pieces {
            for c in pieces {
                for d in pieces {
                    let text = format!("{}{}{}{}", a, b, c, d);
                    let expected: Vec<&str> = text.split_whitespace().collect();
                    assert_eq!(words(&text), expected, "{:?}", text);
                }
            }
        }
    }
}

#[test]
fn words_around_white_space() {
    assert_eq!(words("one two"), vec!["one", "two"]);
    assert_eq!(words("  one\t\ttwo\u{a0}three "), vec!["one", "two", "three"]);
    assert_eq!(words("single"), vec!["single"]);
    assert_eq!(words(" \n "), Vec::<String>::new());
}

#[test]
fn white_space_is_that_of_unicode() {
    for code in 0..=0x10ffff_u32 {
        if let Some(c) = char::from_u32(code) {
            assert_eq!(is_white_space(c), c.is_whitespace(), "{:?}", c);
        }
    }
}

#[test]
fn joined_lines_split_back() {
    let parts = vec!["first".to_string(), String::new(), "third".to_string(), String::new()];
    let whole = join_lines(&parts);
    assert_eq!(whole, "first\n\nthird\n");
    let back: Vec<&str> = whole.split('\n').collect();
    assert_eq!(back, parts);
    assert_eq!(join_lines(&Vec::new()), "");
    assert_eq!(join_lines(&vec!["alone".to_string()]), "alone");
}

#[test]
fn line_count_follows_line_feeds() {
    assert_eq!(lines("a\nb\nc\n").len(), 3);
    assert_eq!(lines("a\nb\nc").len(), 3);
    assert_eq!(lines("\n\n\n").len(), 3);
}

#[test]
fn leading_slashes_are_removed() {
    assert_eq!(trim_leading_slashes("/web"), "web");
    assert_eq!(trim_leading_slashes("///web/api/"), "web/api/");
    assert_eq!(trim_leading_slashes("web"), "web");
    assert_eq!(trim_leading_slashes("//"), "");
    assert_eq!(trim_leading_slashes(""), "");
}

#[test]
fn texts_are_compared_whole() {
    assert!(same_text("running", "running"));
    assert!(!same_text("running", "Running"));
    assert!(!same_text("run", "running"));
    assert!(same_text("", ""));
    assert!(!same_text("é", "e"));
}
