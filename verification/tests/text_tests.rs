use ffi_guard::text::{
    chars_eq_str, chars_to_string, contains_str, count_char_in, find_char, join_chars,
    push_decimal, replace_str, split_lines, split_words, starts_with_str, str_eq, to_chars,
    trim_chars,
};

fn s(v: &[char]) -> String {
    v.iter().collect()
}

#[test]
fn lines_follow_str_lines() {
    for text in ["", "a", "a\n", "a\nb", "a\r\nb\r\n", "\n\n", "x\r", "a\n\nb\n"] {
        let got: Vec<String> = split_lines(&to_chars(text)).iter().map(|l| s(l)).collect();
        let want: Vec<String> = text.lines().map(|l| l.to_string()).collect();
        assert_eq!(got, want, "lines of {:?}", text);
    }
}

#[test]
fn trim_follows_str_trim() {
    for text in ["", "  ", " a ", "\t\u{3000}b c\u{2009}\n", "x"] {
        assert_eq!(s(&trim_chars(&to_chars(text))), text.trim());
    }
}

#[test]
fn words_follow_split_whitespace() {
    for text in ["", "type  Cb = extern \"C\" fn();", "  a\tb  ", "one"] {
        let got: Vec<String> = split_words(&to_chars(text)).iter().map(|w| s(w)).collect();
        let want: Vec<String> = text.split_whitespace().map(|w| w.to_string()).collect();
        assert_eq!(got, want);
    }
}

#[test]
fn replace_follows_str_replace() {
    for text in ["const unsigned int", "unsigned unsigned ", "constconst  ", "const const char"] {
        let got = s(&replace_str(&to_chars(text), "const ", ""));
        assert_eq!(got, text.replace("const ", ""));
        let got = s(&replace_str(&to_chars(text), "unsigned ", "u"));
        assert_eq!(got, text.replace("unsigned ", "u"));
    }
}

#[test]
fn searching_and_counting() {
    let t = to_chars("let p = unsafe { &*ptr };");
    assert!(contains_str(&t, "&*"));
    assert!(!contains_str(&t, "&mut *"));
    assert!(contains_str(&t, ""));
    assert!(starts_with_str(&t, "let"));
    assert!(!starts_with_str(&t, "unsafe"));
    assert_eq!(count_char_in(&t, '{'), 1);
    assert_eq!(count_char_in(&t, 'z'), 0);
    assert_eq!(find_char(&t, '='), Some(6));
    assert_eq!(find_char(&t, '#'), None);
    assert!(str_eq("abc", "abc"));
    assert!(!str_eq("abc", "abd"));
    assert!(chars_eq_str(&to_chars("C"), "C"));
}

#[test]
fn decimal_matches_display() {
    for n in [0usize, 7, 10, 99, 100, 12345, usize::MAX] {
        let mut out = String::from("n=");
        push_decimal(&mut out, n);
        assert_eq!(out, format!("n={}", n));
    }
}

#[test]
fn join_matches_slice_join() {
    let ws = vec![to_chars("x"), to_chars("y"), to_chars("z")];
    assert_eq!(s(&join_chars(&ws, 3, ", ")), "x, y, z");
    assert_eq!(s(&join_chars(&ws, 1, ", ")), "x");
    assert_eq!(s(&join_chars(&ws, 0, ", ")), "");
    assert_eq!(chars_to_string(&to_chars("héllo")), "héllo");
}
