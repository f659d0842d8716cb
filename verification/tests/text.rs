use modder::text::{
    char_is_letter, char_is_space, contains_word, fold, str_contains_word, chars_eq, clone_strings, contains, copy_range, decimal, ends_with, find_from,
    from_chars, is_word, join, lines, matches_at, split, str_contains, str_eq, to_chars, trim,
};

fn chars(s: &str) -> Vec<char> {
    s.chars().collect()
}

fn strings(v: Vec<Vec<char>>) -> Vec<String> {
    v.into_iter().map(|p| p.into_iter().collect()).collect()
}

#[test]
fn chars_and_back() {
    assert_eq!(to_chars("héllo"), chars("héllo"));
    assert_eq!(from_chars(&chars("héllo")), "héllo");
    assert_eq!(from_chars(&[]), "");
    assert_eq!(copy_range(&chars("abcdef"), 2, 4), chars("cd"));
    assert!(chars_eq(&chars("ab"), &chars("ab")));
    assert!(!chars_eq(&chars("ab"), &chars("ac")));
    assert!(!chars_eq(&chars("ab"), &chars("abc")));
    assert!(str_eq("", ""));
    assert!(!str_eq("a", "A"));
}

#[test]
fn searching() {
    assert!(str_contains("fabric-api-1.21.4.jar", "1.21.4"));
    assert!(str_contains("abc", ""));
    assert!(str_contains("", ""));
    assert!(!str_contains("abc", "abcd"));
    assert!(!str_contains("fabric", "forge"));
    assert!(contains(&chars("xxabc"), &chars("abc")));
    assert!(matches_at(&chars("xxabc"), &chars("abc"), 2));
    assert!(!matches_at(&chars("xxabc"), &chars("abc"), 3));
    assert!(ends_with(&chars("a.jar"), &chars(".jar")));
    assert!(!ends_with(&chars("jar"), &chars(".jar")));
    assert_eq!(find_from(&chars("a:b:c"), 0, ':'), 1);
    assert_eq!(find_from(&chars("a:b:c"), 2, ':'), 3);
    assert_eq!(find_from(&chars("a:b:c"), 4, ':'), 5);
}

#[test]
fn splitting() {
    assert_eq!(strings(split(&chars("a:b:c"), ':')), vec!["a", "b", "c"]);
    assert_eq!(strings(split(&chars(""), ':')), vec![""]);
    assert_eq!(strings(split(&chars(":"), ':')), vec!["", ""]);
    assert_eq!(strings(split(&chars("abc"), ':')), vec!["abc"]);
    assert_eq!(strings(split(&chars("a::"), ':')), vec!["a", "", ""]);
}

#[test]
fn lines_as_the_standard_library_reads_them() {
    for text in ["", "a", "a\n", "a\nb", "a\r\nb\r\n", "\n", "\n\n", "a\r", "a\r\n\r\nb", "\r\n", "a\n\rb"] {
        let expected: Vec<String> = text.lines().map(|l| l.to_string()).collect();
        assert_eq!(strings(lines(&chars(text))), expected, "{text:?}");
    }
}

#[test]
fn trimming_as_the_standard_library_does() {
    for text in ["", " ", "a", "  a b  ", "\t\r\na\u{3000}", "\u{a0}x\u{2003}", "\u{85}", "a\u{200b}"] {
        assert_eq!(from_chars(&trim(&chars(text))), text.trim(), "{text:?}");
    }
    for code in 0..0x3100u32 {
        if let Some(c) = char::from_u32(code) {
            assert_eq!(char_is_space(c), c.is_whitespace(), "{code:x}");
        }
    }
}

#[test]
fn words_without_regard_to_case() {
    assert!(is_word(&chars("GitHub"), &chars("github")));
    assert!(is_word(&chars("github"), &chars("GITHUB")));
    assert!(!is_word(&chars("githu"), &chars("github")));
    assert!(!is_word(&chars("gıthub"), &chars("github")));
}

#[test]
fn decimal_digits() {
    assert_eq!(decimal(0), "0");
    assert_eq!(decimal(7), "7");
    assert_eq!(decimal(10), "10");
    assert_eq!(decimal(432), "432");
    assert_eq!(decimal(1000000), "1000000");
    assert_eq!(decimal(u64::MAX), "18446744073709551615");
}

#[test]
fn joining() {
    let items = vec!["a".to_string(), "b".to_string(), "c".to_string()];
    assert_eq!(join(&items, ", "), "a, b, c");
    assert_eq!(join(&items[..1].to_vec(), ", "), "a");
    assert_eq!(join(&Vec::<String>::new(), ", "), "");
    assert_eq!(clone_strings(&items), items);
}

#[test]
fn words_of_their_own() {
    assert!(str_contains_word("mod-fabric-1.21.jar", "fabric"));
    assert!(str_contains_word("fabric", "FABRIC"));
    assert!(!str_contains_word("neoforge", "forge"));
    assert!(!str_contains_word("forges", "forge"));
    assert!(str_contains_word("forge1", "forge"));
    assert!(str_contains_word("a  b", ""));
    assert!(!str_contains_word("a b", ""));
    assert!(!str_contains_word("ab", ""));
    assert!(str_contains_word("", ""));
    assert!(!str_contains_word("", "a"));
    assert!(contains_word(&chars("x.É-forge"), &chars("forge")));
    assert_eq!(fold(&chars("NeoForge É")), chars("neoforge É"));
    assert!(char_is_letter('a') && char_is_letter('Z') && !char_is_letter('1') && !char_is_letter('é'));
}
