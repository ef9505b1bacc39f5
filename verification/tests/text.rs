use sigil::paths::{file_name_of, join_path};
use sigil::text::{
    chars_of, clip, contains, decimal_string, ends_with, same_text, split_fields, split_lines,
    starts_with,
};

fn std_lines(s: &str) -> Vec<String> {
    s.lines().map(|l| l.to_string()).collect()
}

#[test]
fn lines_agree_with_the_standard_library() {
    let samples = [
        "",
        "a",
        "a\n",
        "a\n\n",
        "\n",
        "\n\n",
        "a\nb",
        "a\r\nb\r\n",
        "a\rb\n",
        "a\r",
        "\r\n",
        "\r",
        "\r\r\n",
        "x\n\r\ny\r",
        "caf\u{00e9}\n\u{2192}\r\n",
    ];
    for s in samples {
        assert_eq!(split_lines(s), std_lines(s), "for {:?}", s);
    }
}

#[test]
fn lines_exact() {
    assert_eq!(split_lines("one\r\ntwo\n\nfour"), vec!["one", "two", "", "four"]);
    assert_eq!(split_lines("tail\r"), vec!["tail\r"]);
    assert!(split_lines("").is_empty());
}

#[test]
fn decimal_numerals() {
    assert_eq!(decimal_string(0), "0");
    assert_eq!(decimal_string(7), "7");
    assert_eq!(decimal_string(10), "10");
    assert_eq!(decimal_string(5_000_001), "5000001");
    assert_eq!(decimal_string(u64::MAX), "18446744073709551615");
}

#[test]
fn prefix_suffix_and_substring() {
    assert!(starts_with(".git/config", ".git/"));
    assert!(!starts_with(".gitignore", ".git/"));
    assert!(starts_with("abc", ""));
    assert!(!starts_with("ab", "abc"));
    assert!(ends_with("lib.so", ".so"));
    assert!(!ends_with("lib.so.1", ".so"));
    assert!(ends_with("x", ""));
    assert!(contains("my_backdoor_shell.py", "backdoor"));
    assert!(contains("abc", ""));
    assert!(contains("abc", "abc"));
    assert!(contains("abc", "c"));
    assert!(!contains("abc", "abcd"));
    assert!(!contains("abc", "ca"));
    assert!(same_text("setup.py", "setup.py"));
    assert!(!same_text("setup.py", "setup.pyc"));
    assert!(!same_text("a", "b"));
}

#[test]
fn file_names() {
    assert_eq!(file_name_of("a/b/setup.py"), "setup.py");
    assert_eq!(file_name_of("setup.py"), "setup.py");
    assert_eq!(file_name_of(""), "");
    assert_eq!(file_name_of("dir/"), "");
    assert_eq!(file_name_of("/x"), "x");
}

#[test]
fn joined_paths() {
    assert_eq!(join_path("/home/u", ".sigil"), "/home/u/.sigil");
    assert_eq!(join_path("/", ".sigil"), "/.sigil");
    assert_eq!(join_path("", "x"), "x");
    assert_eq!(join_path("a/", "b"), "a/b");
}

#[test]
fn clipping() {
    assert_eq!(clip("short"), "short");
    let long: String = std::iter::repeat('z').take(201).collect();
    let kept: String = std::iter::repeat('z').take(200).collect();
    assert_eq!(clip(&long), format!("{} ...", kept));
    assert_eq!(clip(&kept), kept);
}

#[test]
fn characters() {
    assert_eq!(chars_of("a\u{00e9}\u{2192}"), vec!['a', '\u{00e9}', '\u{2192}']);
}

#[test]
fn fields_agree_with_the_standard_library() {
    for s in ["", ",", "a", "a,b", "a,,b", ",a,", "a, b ,c", "\u{00e9},\u{2192}"] {
        let expected: Vec<String> = s.split(',').map(|f| f.to_string()).collect();
        assert_eq!(split_fields(s, ','), expected, "for {:?}", s);
    }
    assert_eq!(split_fields("a:b", ':'), vec!["a", "b"]);
}
