use std::io::BufRead;

use laracli::text::{
    any_line_contains, contains_chars, copy_text, from_chars, is_whitespace_char,
    join_lines_without, occurs_at_chars, position_of, push_all, push_str, replace_all_chars,
    replace_char_chars, same_chars, same_text, split_lines, starts_with_chars,
    to_chars, trim_chars, trim_end_chars, trim_start_chars,
};

fn chars(text: &str) -> Vec<char> {
    text.chars().collect()
}

fn lines(text: &str) -> Vec<String> {
    split_lines(&chars(text)).iter().map(|line| line.iter().collect()).collect()
}

#[test]
fn to_chars_and_back() {
    let text = "127.0.0.1\tblog.test \u{e9}\u{4e2d}";
    assert_eq!(to_chars(text), chars(text));
    assert_eq!(from_chars(&chars(text)), text);
    assert_eq!(copy_text(text), text);
    assert_eq!(to_chars(""), Vec::<char>::new());
}

#[test]
fn occurs_at_checks_one_position() {
    let hay = chars("abcabc");
    assert!(occurs_at_chars(&hay, &chars("abc"), 0));
    assert!(occurs_at_chars(&hay, &chars("abc"), 3));
    assert!(!occurs_at_chars(&hay, &chars("abc"), 1));
    assert!(!occurs_at_chars(&hay, &chars("abc"), 4));
    assert!(occurs_at_chars(&hay, &chars(""), 6));
    assert!(!occurs_at_chars(&hay, &chars(""), 7));
}

#[test]
fn contains_finds_a_needle_anywhere() {
    let hay = chars("127.0.0.1\tblog.test #added by laracli");
    assert!(contains_chars(&hay, &chars("blog.test")));
    assert!(contains_chars(&hay, &chars("laracli")));
    assert!(contains_chars(&hay, &chars("127")));
    assert!(contains_chars(&hay, &chars("")));
    assert!(!contains_chars(&hay, &chars("shop.test")));
    assert!(!contains_chars(&chars("ab"), &chars("abc")));
    assert!(contains_chars(&chars(""), &chars("")));
}

#[test]
fn starts_with_looks_at_the_front() {
    assert!(starts_with_chars(&chars("\\\\?\\C:\\www"), &chars("\\\\?\\")));
    assert!(!starts_with_chars(&chars("C:\\\\?\\"), &chars("\\\\?\\")));
    assert!(starts_with_chars(&chars("abc"), &chars("")));
    assert!(!starts_with_chars(&chars("ab"), &chars("abc")));
}

#[test]
fn replace_char_replaces_every_one() {
    assert_eq!(replace_char_chars(&chars("C:\\a\\b/c"), '\\', '/'), chars("C:/a/b/c"));
    assert_eq!(replace_char_chars(&chars(""), '\\', '/'), chars(""));
    assert_eq!(replace_char_chars(&chars("abc"), '\\', '/'), chars("abc"));
}

#[test]
fn split_lines_drops_line_ends() {
    assert_eq!(lines("a\nb\n"), vec!["a", "b"]);
    assert_eq!(lines("a\r\nb\r\n"), vec!["a", "b"]);
    assert_eq!(lines("a\nb"), vec!["a", "b"]);
    assert_eq!(lines(""), Vec::<String>::new());
    assert_eq!(lines("\n"), vec![""]);
    assert_eq!(lines("\n\n"), vec!["", ""]);
    assert_eq!(lines("a\n\nb\n"), vec!["a", "", "b"]);
}

#[test]
fn split_lines_keeps_other_carriage_returns() {
    assert_eq!(lines("a\r\r\nb"), vec!["a\r", "b"]);
    assert_eq!(lines("a\rb\n"), vec!["a\rb"]);
    assert_eq!(lines("a\nb\r"), vec!["a", "b\r"]);
    assert_eq!(lines("\r\n"), vec![""]);
}

#[test]
fn split_lines_agrees_with_the_buffered_reader() {
    for text in ["", "a", "a\n", "a\r\n", "a\r\r\n", "a\n\nb", "\n", "\r", "x\ry\r\n\r\nz\r"] {
        let expected: Vec<String> =
            std::io::BufReader::new(text.as_bytes()).lines().map(|line| line.unwrap()).collect();
        assert_eq!(lines(text), expected, "{:?}", text);
    }
}

#[test]
fn any_line_contains_looks_at_every_line() {
    let rows = split_lines(&chars("one\ntwo blog.test\nthree\n"));
    assert!(any_line_contains(&rows, &chars("blog.test")));
    assert!(!any_line_contains(&rows, &chars("shop.test")));
    assert!(!any_line_contains(&rows, &chars("one\ntwo")));
    assert!(!any_line_contains(&Vec::new(), &chars("")));
}

#[test]
fn join_lines_without_filters_and_ends_each_line() {
    let rows = split_lines(&chars("one\r\ntwo blog.test\nthree"));
    assert_eq!(join_lines_without(&rows, &chars("blog.test")), chars("one\nthree\n"));
    assert_eq!(join_lines_without(&rows, &chars("nothing")), chars("one\ntwo blog.test\nthree\n"));
    assert_eq!(join_lines_without(&rows, &chars("")), chars(""));
}

#[test]
fn push_all_and_push_str_append() {
    let mut text = chars("ab");
    push_all(&mut text, &chars("cd"));
    push_str(&mut text, "ef");
    push_str(&mut text, "");
    assert_eq!(text, chars("abcdef"));
}

#[test]
fn same_chars_and_same_text_compare() {
    assert!(same_chars(&chars("abc"), &chars("abc")));
    assert!(!same_chars(&chars("abc"), &chars("abd")));
    assert!(!same_chars(&chars("abc"), &chars("ab")));
    assert!(same_text("", ""));
    assert!(same_text("C:\\www", "C:\\www"));
    assert!(!same_text("C:\\www", "c:\\www"));
}

#[test]
fn position_of_finds_the_first() {
    let rows = vec!["a".to_string(), "b".to_string(), "a".to_string()];
    assert_eq!(position_of(&rows, "a"), Some(0));
    assert_eq!(position_of(&rows, "b"), Some(1));
    assert_eq!(position_of(&rows, "c"), None);
    assert_eq!(position_of(&Vec::new(), "a"), None);
}

fn text(chars: Vec<char>) -> String {
    chars.iter().collect()
}

#[test]
fn white_space_is_what_the_standard_library_calls_so() {
    for code in 0..=0x10FFFFu32 {
        if let Some(c) = char::from_u32(code) {
            assert_eq!(is_whitespace_char(c), c.is_whitespace(), "U+{:04X}", code);
        }
    }
}

#[test]
fn trimming_drops_white_space_at_the_ends() {
    assert_eq!(text(trim_start_chars(&chars(" \t extension=gd "))), "extension=gd ");
    assert_eq!(text(trim_end_chars(&chars(" extension=gd \r\n\n"))), " extension=gd");
    assert_eq!(text(trim_chars(&chars("\u{a0} 1234\r\n"))), "1234");
    assert_eq!(text(trim_chars(&chars(" \n\t "))), "");
    assert_eq!(text(trim_chars(&chars(""))), "");
    assert_eq!(text(trim_chars(&chars("a b"))), "a b");
}

#[test]
fn trimming_agrees_with_the_standard_library() {
    for sample in ["", " ", "a", " a", "a ", "\t\u{2003}a b\u{3000}\n", "\u{200b}a", "\u{85}x\u{85}"] {
        assert_eq!(text(trim_start_chars(&chars(sample))), sample.trim_start());
        assert_eq!(text(trim_end_chars(&chars(sample))), sample.trim_end());
        assert_eq!(text(trim_chars(&chars(sample))), sample.trim());
    }
}

#[test]
fn replace_all_replaces_from_the_left() {
    assert_eq!(text(replace_all_chars(&chars("a;b;c"), &chars(";"), &chars("::"))), "a::b::c");
    assert_eq!(text(replace_all_chars(&chars("aaa"), &chars("aa"), &chars("b"))), "ba");
    assert_eq!(text(replace_all_chars(&chars("abc"), &chars("abcd"), &chars("x"))), "abc");
    assert_eq!(text(replace_all_chars(&chars("abc"), &chars("abc"), &chars(""))), "");
    assert_eq!(text(replace_all_chars(&chars(""), &chars("a"), &chars("b"))), "");
    assert_eq!(text(replace_all_chars(&chars("abc"), &chars(""), &chars("x"))), "abc");
}

#[test]
fn replace_all_agrees_with_the_standard_library() {
    let samples = ["", "abab", "aaaa", "xaxbxc", ";extension_dir = \"ext\"\n;;extension_dir = \"ext\""];
    let patterns = [("a", "b"), ("ab", "a"), ("aa", "a"), ("x", ""), (";extension_dir = \"ext\"", "extension_dir = \"ext\"")];
    for sample in samples {
        for (from, to) in patterns {
            assert_eq!(
                text(replace_all_chars(&chars(sample), &chars(from), &chars(to))),
                sample.replace(from, to)
            );
        }
    }
}

#[test]
fn split_lines_agrees_with_the_lines_of_a_string() {
    for sample in ["", "a", "a\n", "a\r\n", "a\r\r\n", "a\n\nb", "\n", "\r", "x\ry\r\n\r\nz\r"] {
        let expected: Vec<String> = sample.lines().map(|line| line.to_string()).collect();
        assert_eq!(lines(sample), expected, "{:?}", sample);
    }
}
