use codexclaw::numbers::{decimal_i64, decimal_u64, eq_ignore_ascii_case};
use codexclaw::paths::{extension, file_name, is_absolute, join_path};
use codexclaw::patterns::{lines_of, text_contains, text_starts_with};
use codexclaw::text::{chars_of, cut_trailing, is_blank, trimmed_text, white_space};
use std::path::Path;

#[test]
fn white_space_is_that_of_unicode() {
    for code in 0..=0x10ffffu32 {
        if let Some(c) = char::from_u32(code) {
            assert_eq!(white_space(c), c.is_whitespace(), "{code:x}");
        }
    }
}

#[test]
fn trimming_agrees_with_std() {
    for text in ["", " ", " a ", "\u{3000}x y\u{85}\n", "\t\r\n", "plain", "\u{200b} z"] {
        assert_eq!(trimmed_text(text), text.trim());
        assert_eq!(is_blank(text), text.trim().is_empty());
    }
    assert_eq!(cut_trailing("https://a.b//", '/'), "https://a.b");
    assert_eq!(cut_trailing("///", '/'), "");
}

#[test]
fn decimals_agree_with_std() {
    for n in [0u64, 1, 9, 10, 99, 100, 4096, u64::MAX] {
        assert_eq!(decimal_u64(n), n.to_string());
    }
    for n in [0i64, 7, -1, -10, 1234567890123, i64::MAX, i64::MIN] {
        assert_eq!(decimal_i64(n), n.to_string());
    }
}

#[test]
fn ascii_case_is_ignored_and_no_other() {
    assert!(eq_ignore_ascii_case("/NEW", "/new"));
    assert!(!eq_ignore_ascii_case("/new ", "/new"));
    assert!(!eq_ignore_ascii_case("Новый", "новый"));
}

#[test]
fn searching_agrees_with_std() {
    assert!(text_contains("abcabd", "abd"));
    assert!(!text_contains("abcabd", "abe"));
    assert!(text_contains("x", ""));
    assert!(text_starts_with("https://x", "https://"));
    assert!(!text_starts_with("http", "https://"));
}

#[test]
fn lines_agree_with_std() {
    for text in ["", "\n", "a", "a\n", "a\r\nb", "\r\n\r\n", "a\rb\n\nc\r", "x\r\r\n"] {
        let chars = chars_of(text);
        let found: Vec<String> = lines_of(&chars)
            .iter()
            .map(|line| line.iter().collect())
            .collect();
        let expected: Vec<String> = text.lines().map(|line| line.to_string()).collect();
        assert_eq!(found, expected, "{text:?}");
    }
}

#[test]
fn paths_agree_with_std() {
    let paths = [
        "", "/", ".", "..", "a", "a/b", "/a/b.txt", "a/", "a//", "a/.", "a/./", "a/..", "./a",
        "/.", ".bashrc", "a.tar.gz", "a.", "x/.hidden.md", "dir.d/file", "..a", "a b.PNG",
    ];
    for path in paths {
        let std_path = Path::new(path);
        assert_eq!(
            file_name(path).as_deref(),
            std_path.file_name().and_then(|name| name.to_str()),
            "{path:?}"
        );
        assert_eq!(
            extension(path).as_deref(),
            std_path.extension().and_then(|ext| ext.to_str()),
            "{path:?}"
        );
        assert_eq!(is_absolute(path), std_path.is_absolute(), "{path:?}");
        for other in paths {
            assert_eq!(
                join_path(path, other),
                std_path.join(other).to_string_lossy(),
                "{path:?} {other:?}"
            );
        }
    }
}
