use pattern_store::text::char_is_whitespace;
use pattern_store::text::chars_of;
use pattern_store::text::contains_string;
use pattern_store::text::contains_text;
use pattern_store::text::find_first;
use pattern_store::text::join;
use pattern_store::text::same_text;
use pattern_store::text::trim;

#[test]
fn trim_removes_whitespace_around() {
    assert_eq!(trim("  hello world \n\t"), "hello world");
    assert_eq!(trim("\n\nbody\n"), "body");
    assert_eq!(trim("x"), "x");
}

#[test]
fn trim_of_whitespace_is_empty() {
    assert_eq!(trim(""), "");
    assert_eq!(trim(" \n\t\r "), "");
}

#[test]
fn trim_keeps_whitespace_inside() {
    assert_eq!(trim(" a  b\n\nc "), "a  b\n\nc");
}

#[test]
fn trim_agrees_with_the_standard_library() {
    for s in [
        "",
        " ",
        "\u{a0}x\u{a0}",
        "\u{2003}wide\u{3000}",
        "\u{85}next line\u{2028}",
        "é \u{1680}",
        "\u{200b}zero width stays\u{200b}",
        "\u{feff}bom stays",
        "  日本語  ",
    ] {
        assert_eq!(trim(s), s.trim(), "{s:?}");
    }
}

#[test]
fn whitespace_agrees_with_the_standard_library() {
    for code in 0u32..0x11000 {
        if let Some(c) = char::from_u32(code) {
            assert_eq!(char_is_whitespace(c), c.is_whitespace(), "{c:?}");
        }
    }
}

#[test]
fn chars_of_gives_the_characters() {
    assert_eq!(chars_of("aé日"), vec!['a', 'é', '日']);
    assert_eq!(chars_of(""), Vec::<char>::new());
}

#[test]
fn find_first_gives_the_first_index() {
    let hay = chars_of("abcabc");
    assert_eq!(find_first(&hay, &chars_of("bc")), Some(1));
    assert_eq!(find_first(&hay, &chars_of("abc")), Some(0));
    assert_eq!(find_first(&hay, &chars_of("cab")), Some(2));
    assert_eq!(find_first(&hay, &chars_of("")), Some(0));
    assert_eq!(find_first(&hay, &chars_of("abcabc")), Some(0));
    assert_eq!(find_first(&hay, &chars_of("x")), None);
    assert_eq!(find_first(&hay, &chars_of("abcabca")), None);
    assert_eq!(find_first(&chars_of(""), &chars_of("")), Some(0));
    assert_eq!(find_first(&chars_of(""), &chars_of("a")), None);
}

#[test]
fn find_first_counts_characters() {
    let hay = chars_of("ééx");
    assert_eq!(find_first(&hay, &chars_of("x")), Some(2));
}

#[test]
fn contains_text_finds_infixes_only() {
    assert!(contains_text("axum handler", "axum"));
    assert!(contains_text("axum handler", "m h"));
    assert!(contains_text("axum handler", ""));
    assert!(!contains_text("axum handler", "AXUM"));
    assert!(!contains_text("axum handler", "axumhandler"));
    assert!(!contains_text("", "a"));
}

#[test]
fn same_text_compares_letter_for_letter() {
    assert!(same_text("rust", "rust"));
    assert!(!same_text("rust", "Rust"));
    assert!(!same_text("rust", "rus"));
    assert!(!same_text("rust", "rusty"));
    assert!(same_text("", ""));
}

#[test]
fn contains_string_compares_letter_for_letter() {
    let tags = vec!["go".to_string(), "retry".to_string()];
    assert!(contains_string(&tags, &"retry".to_string()));
    assert!(!contains_string(&tags, &"Retry".to_string()));
    assert!(!contains_string(&tags, &"ret".to_string()));
    assert!(!contains_string(&Vec::new(), &"retry".to_string()));
}

#[test]
fn join_puts_the_separator_between() {
    let parts = vec!["a".to_string(), "b".to_string(), "c".to_string()];
    assert_eq!(join(&parts, ", "), "a, b, c");
    assert_eq!(join(&parts[..1].to_vec(), ", "), "a");
    assert_eq!(join(&Vec::new(), ", "), "");
    assert_eq!(join(&vec![String::new(), String::new()], "-"), "-");
}
