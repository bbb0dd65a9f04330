use mymake::text::{
    ascii_lowercase, ends_with, join, replace_all, same_text, split_fields, split_lines,
    split_whitespace, starts_with, strip_prefix, trim, trim_end, trim_start,
};

fn strings(items: &[&str]) -> Vec<String> {
    items.iter().map(|s| s.to_string()).collect()
}

#[test]
fn words_are_the_runs_between_separators() {
    assert_eq!(split_whitespace("  -I/a   -I/b\t-pthread\n"), strings(&["-I/a", "-I/b", "-pthread"]));
    assert_eq!(split_whitespace(""), Vec::<String>::new());
    assert_eq!(split_whitespace(" \n\t "), Vec::<String>::new());
    assert_eq!(split_whitespace("one"), strings(&["one"]));
}

#[test]
fn lines_end_at_line_feeds() {
    assert_eq!(split_lines("a\nb"), strings(&["a", "b"]));
    assert_eq!(split_lines("a\r\nb\n"), strings(&["a", "b"]));
    assert_eq!(split_lines("a\n\nb"), strings(&["a", "", "b"]));
    assert_eq!(split_lines(""), Vec::<String>::new());
    assert_eq!(split_lines("\n"), strings(&[""]));
    assert_eq!(split_lines("last\r"), strings(&["last\r"]));
}

#[test]
fn trimming_takes_separators_from_the_ends_only() {
    assert_eq!(trim("  a b \n"), "a b");
    assert_eq!(trim_end("  a b \n"), "  a b");
    assert_eq!(trim_start("  a b \n"), "a b \n");
    assert_eq!(trim("   "), "");
}

#[test]
fn prefixes_and_suffixes() {
    assert!(starts_with("-I/usr", "-I"));
    assert!(!starts_with("-", "-I"));
    assert!(ends_with("file.cpp", ".cpp"));
    assert!(!ends_with("cpp", ".cpp"));
    assert!(same_text("abc", "abc"));
    assert!(!same_text("abc", "abd"));
    assert_eq!(strip_prefix("-lfoo", "-l"), "foo");
    assert_eq!(strip_prefix("foo", "-l"), "foo");
}

#[test]
fn lower_case_touches_ascii_capitals_only() {
    assert_eq!(ascii_lowercase("C++17"), "c++17");
    assert_eq!(ascii_lowercase("AbC-xyZ_09"), "abc-xyz_09");
    assert_eq!(ascii_lowercase(""), "");
}

#[test]
fn join_sets_the_separator_between_items() {
    assert_eq!(join(&strings(&["a", "b", "c"]), ", "), "a, b, c");
    assert_eq!(join(&strings(&["a"]), ", "), "a");
    assert_eq!(join(&Vec::new(), ", "), "");
}

#[test]
fn fields_are_separated_by_single_blanks() {
    assert_eq!(split_fields("/some/path SYSTEM"), (String::from("/some/path"), Some(String::from("SYSTEM"))));
    assert_eq!(split_fields("/some/path"), (String::from("/some/path"), None));
    assert_eq!(split_fields("a  b"), (String::from("a"), Some(String::new())));
}

#[test]
fn white_space_is_what_unicode_says() {
    assert_eq!(split_whitespace("a\u{a0}b\u{2028}c\u{3000}d\u{85}e\u{b}f"), strings(&["a", "b", "c", "d", "e", "f"]));
    assert_eq!(split_whitespace("a\u{200b}b"), strings(&["a\u{200b}b"]));
    assert_eq!(trim("\u{2003}a b\u{202f}\u{205f}"), "a b");
    assert_eq!(trim_end("a\u{1680}"), "a");
    assert_eq!(trim_start("\u{2029}\u{c}a"), "a");
    assert_eq!("a\u{a0}b\u{2028}c".split_whitespace().count(), 3);
}

#[test]
fn every_occurrence_is_replaced_from_left_to_right() {
    assert_eq!(replace_all("a.cpp b.cpp", ".cpp", ".o"), "a.o b.o");
    assert_eq!(replace_all("a.cpp.cpp", ".cpp", ".o"), "a.o.o");
    assert_eq!(replace_all("aaa", "aa", "b"), "ba");
    assert_eq!(replace_all("abc", "", "x"), "abc");
    assert_eq!(replace_all("", "a", "x"), "");
    assert_eq!(replace_all("a.cp", ".cpp", ".o"), "a.cp");
    assert_eq!(replace_all("xyz", "xyz", ""), "");
    assert_eq!(replace_all("a.cpp b.cpp", ".cpp", ".o"), "a.cpp b.cpp".replace(".cpp", ".o"));
}
