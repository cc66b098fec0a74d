use why::text::{
    char_is_whitespace, chars_of, concat2, concat3, contains, copy_range, find, first_word_of, head_of, head_text,
    is_lowercase_first, is_uppercase_first, join_path, lines_of, matches_at, path_names_file,
    same_text, string_of, trimmed, without_prefixes, without_trailing,
};

fn cs(s: &str) -> Vec<char> {
    s.chars().collect()
}

fn st(v: &Vec<char>) -> String {
    v.iter().collect()
}

#[test]
fn chars_and_strings_convert_both_ways() {
    assert_eq!(chars_of("héllo"), vec!['h', 'é', 'l', 'l', 'o']);
    assert_eq!(string_of(&vec!['a', 'ß', 'c']), "aßc".to_string());
    assert_eq!(string_of(&chars_of("")), "");
}

#[test]
fn same_text_compares_contents() {
    assert!(same_text("serde", "serde"));
    assert!(!same_text("serde", "serde_json"));
    assert!(same_text("", ""));
}

#[test]
fn contains_finds_a_substring_anywhere() {
    assert!(contains("tokio::spawn_async", "async"));
    assert!(contains("abc", ""));
    assert!(contains("", ""));
    assert!(!contains("", "a"));
    assert!(!contains("abc", "abcd"));
    assert!(contains("aab", "ab"));
    assert!(!contains("project/targets/x.rs", "/target/"));
}

#[test]
fn matches_at_checks_one_position() {
    assert!(matches_at(&cs("hello"), &cs("ll"), 2));
    assert!(!matches_at(&cs("hello"), &cs("ll"), 3));
    assert!(!matches_at(&cs("hello"), &cs("lo"), 4));
    assert!(matches_at(&cs("hello"), &cs(""), 5));
    assert!(!matches_at(&cs("hello"), &cs(""), 6));
}

#[test]
fn find_gives_the_first_occurrence() {
    assert_eq!(find(&cs("a::b::c"), &cs("::")), Some(1));
    assert_eq!(find(&cs("abc"), &cs("::")), None);
    assert_eq!(find(&cs("abc"), &cs("")), Some(0));
    assert_eq!(find(&cs(""), &cs("")), Some(0));
    assert_eq!(find(&cs("xx::"), &cs("::")), Some(2));
}

#[test]
fn head_is_the_text_before_the_first_separator() {
    assert_eq!(st(&head_of(&cs("serde::de::Deserialize"), &cs("::"))), "serde");
    assert_eq!(head_text("serde", "::"), "serde");
    assert_eq!(head_text("", "::"), "");
    assert_eq!(head_text("::x", "::"), "");
}

#[test]
fn trimmed_removes_white_space_at_both_ends() {
    assert_eq!(st(&trimmed(&cs("  \tuse a::b;  \n"))), "use a::b;");
    assert_eq!(st(&trimmed(&cs("   "))), "");
    assert_eq!(st(&trimmed(&cs(""))), "");
    assert_eq!(st(&trimmed(&cs("a b"))), "a b");
    assert_eq!(st(&trimmed(&cs("\u{a0}x\u{2003}"))), "x");
}

#[test]
fn white_space_is_what_the_standard_library_takes_for_it() {
    let mut count = 0;
    for code in 0..=0x10ffff_u32 {
        if let Some(c) = char::from_u32(code) {
            assert_eq!(char_is_whitespace(c), c.is_whitespace(), "for U+{:04X}", code);
            if char_is_whitespace(c) {
                count += 1;
            }
        }
    }
    assert_eq!(count, 25);
    assert!(char_is_whitespace('\t'));
    assert!(char_is_whitespace('\u{3000}'));
    assert!(!char_is_whitespace('\u{200b}'));
    assert!(!char_is_whitespace('\u{180e}'));
}

#[test]
fn strings_are_built_character_by_character() {
    assert_eq!(string_of(&cs("use a::b;")), "use a::b;");
    assert_eq!(string_of(&vec!['\u{10ffff}', 'z']), "\u{10ffff}z");
    assert_eq!(string_of(&Vec::new()), "");
}

#[test]
fn without_prefixes_removes_every_leading_repetition() {
    assert_eq!(st(&without_prefixes(&cs("use use a"), &cs("use "))), "a");
    assert_eq!(st(&without_prefixes(&cs("user"), &cs("use "))), "user");
    assert_eq!(st(&without_prefixes(&cs("abc"), &cs(""))), "abc");
    assert_eq!(st(&without_prefixes(&cs("aaa"), &cs("a"))), "");
}

#[test]
fn without_trailing_removes_every_trailing_repetition() {
    assert_eq!(st(&without_trailing(&cs("a::b;;"), ';')), "a::b");
    assert_eq!(st(&without_trailing(&cs(";;"), ';')), "");
    assert_eq!(st(&without_trailing(&cs("a;b"), ';')), "a;b");
}

#[test]
fn first_word_is_the_first_run_without_white_space() {
    assert_eq!(st(&first_word_of(&cs("  serde as s;"))), "serde");
    assert_eq!(st(&first_word_of(&cs("serde;"))), "serde;");
    assert_eq!(st(&first_word_of(&cs("   "))), "");
}

#[test]
fn lines_split_at_line_feeds_and_drop_carriage_returns() {
    let lines: Vec<String> = lines_of(&cs("a\r\nb\n\nc")).iter().map(st).collect();
    assert_eq!(lines, vec!["a", "b", "", "c"]);
    let lines: Vec<String> = lines_of(&cs("a\n")).iter().map(st).collect();
    assert_eq!(lines, vec!["a"]);
    let lines: Vec<String> = lines_of(&cs("a\rb\r")).iter().map(st).collect();
    assert_eq!(lines, vec!["a\rb\r"]);
    assert!(lines_of(&cs("")).is_empty());
    let lines: Vec<String> = lines_of(&cs("\n")).iter().map(st).collect();
    assert_eq!(lines, vec![""]);
}

#[test]
fn lines_agree_with_the_standard_library() {
    for text in ["", "\n", "a", "a\n", "a\r\n", "\r\n\r\n", "x\ry\n", "one\ntwo\r\nthree", "\r", "a\n\rb"] {
        let ours: Vec<String> = lines_of(&cs(text)).iter().map(st).collect();
        let theirs: Vec<String> = text.lines().map(|l| l.to_string()).collect();
        assert_eq!(ours, theirs, "for {:?}", text);
    }
}

#[test]
fn text_functions_agree_with_the_standard_library() {
    for text in ["  use a::b; ", "use use x", "extern crate  foo ;", "", " \t "] {
        assert_eq!(st(&trimmed(&cs(text))), text.trim());
        assert_eq!(st(&without_prefixes(&cs(text), &cs("use "))), text.trim_start_matches("use "));
        assert_eq!(st(&without_trailing(&cs(text), ' ')), text.trim_end_matches(' '));
        assert_eq!(st(&first_word_of(&cs(text))), text.split_whitespace().next().unwrap_or(""));
        assert_eq!(head_text(text, "::"), text.split("::").next().unwrap_or(""));
    }
}

#[test]
fn copy_range_copies_a_part() {
    assert_eq!(st(&copy_range(&cs("hello"), 1, 3)), "el");
    assert_eq!(st(&copy_range(&cs("hello"), 2, 2)), "");
}

#[test]
fn case_of_the_first_character() {
    assert!(is_lowercase_first("spawn"));
    assert!(!is_lowercase_first("Spawn"));
    assert!(!is_lowercase_first(""));
    assert!(!is_lowercase_first("_x"));
    assert!(is_uppercase_first("Value"));
    assert!(!is_uppercase_first("value"));
    assert!(!is_uppercase_first(""));
    assert!(is_uppercase_first("Éclair"));
}

#[test]
fn concatenation_keeps_the_order() {
    assert_eq!(concat2("a", "::*"), "a::*");
    assert_eq!(concat3("a", "::", "b"), "a::b");
}

#[test]
fn join_path_puts_one_slash_between() {
    assert_eq!(join_path("proj", "Cargo.toml"), "proj/Cargo.toml");
    assert_eq!(join_path("proj/", "Cargo.toml"), "proj/Cargo.toml");
    assert_eq!(join_path("", "Cargo.toml"), "Cargo.toml");
    assert_eq!(join_path("/", "Cargo.toml"), "/Cargo.toml");
}

#[test]
fn path_names_file_looks_at_the_last_component() {
    assert!(path_names_file("Cargo.toml", "Cargo.toml"));
    assert!(path_names_file("a/b/Cargo.toml", "Cargo.toml"));
    assert!(!path_names_file("a/MyCargo.toml", "Cargo.toml"));
    assert!(!path_names_file("a/Cargo.toml.bak", "Cargo.toml"));
    assert!(!path_names_file("", "Cargo.toml"));
    assert!(path_names_file("proj/Cargo.toml/", "Cargo.toml"));
    assert!(path_names_file("Cargo.toml//", "Cargo.toml"));
    assert!(path_names_file("proj/Cargo.toml/.", "Cargo.toml"));
    assert!(path_names_file("proj/Cargo.toml/.//./", "Cargo.toml"));
    assert!(!path_names_file("proj/Cargo.toml/..", "Cargo.toml"));
    assert!(!path_names_file("/", "Cargo.toml"));
    assert!(!path_names_file(".", "Cargo.toml"));
    for path in [
        "Cargo.toml",
        "a/Cargo.toml",
        "a/Cargo.toml/",
        "a/Cargo.toml//",
        "a/Cargo.toml/.",
        "a/Cargo.toml/./",
        "a/Cargo.toml/././/",
        "a/Cargo.toml/..",
        "a/./Cargo.toml",
        "a//Cargo.toml",
        "./Cargo.toml",
        "Cargo.toml/.",
        "a/xCargo.toml",
        "a/Cargo.toml/b",
        "a/Cargo.toml.",
        "a/.Cargo.toml",
        "",
        "/",
        ".",
        "./",
        "/.",
        "..",
    ] {
        assert_eq!(
            path_names_file(path, "Cargo.toml"),
            std::path::Path::new(path).ends_with("Cargo.toml"),
            "for {:?}",
            path
        );
    }
}
