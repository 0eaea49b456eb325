use argus::text::{
    align_left, align_right, decimal, is_blank, lines, repeat_char, trim, trim_leading, truncate,
};
use argus::paths::{components, extension, file_name, join, path_key, same_path};

#[test]
fn truncate_returns_short_strings_unchanged() {
    assert_eq!(truncate("hi", 10), "hi");
}

#[test]
fn truncate_appends_ellipsis() {
    let out = truncate("abcdefghij", 5);
    assert!(out.ends_with('…'));
    assert_eq!(out.chars().count(), 6);
}

#[test]
fn lines_are_those_of_the_standard_library() {
    let texts = [
        "", "\n", "a", "a\n", "a\nb", "a\r\nb\r\n", "a\r", "\r\n", "\n\n", "a\n\nb", "é\r\r\nü",
    ];
    for t in texts {
        let expected: Vec<String> = t.lines().map(|l| l.to_string()).collect();
        assert_eq!(lines(t), expected, "{t:?}");
    }
}

#[test]
fn trimming_is_that_of_the_standard_library() {
    let texts = ["", " ", "a", "  a b  ", "\u{3000}x\u{a0}", "\u{200b}x", "\t\n\u{85}é\u{2029}"];
    for t in texts {
        assert_eq!(trim(t), t.trim(), "{t:?}");
        assert_eq!(is_blank(t), t.trim().is_empty());
        assert_eq!(trim_leading(t, ' '), t.trim_start_matches(' '));
    }
    for c in (0u32..0x11000).filter_map(char::from_u32) {
        let t = c.to_string();
        assert_eq!(trim(&t).is_empty(), c.is_whitespace(), "{c:?}");
    }
}

#[test]
fn numbers_and_padding() {
    for n in [0u64, 9, 10, 12345, u64::MAX] {
        assert_eq!(decimal(n), n.to_string());
    }
    assert_eq!(align_right("é", 3), format!("{:>3}", "é"));
    assert_eq!(align_left("ab", 5), format!("{:<5}", "ab"));
    assert_eq!(align_left("abcdef", 5), "abcdef");
    assert_eq!(repeat_char('─', 3), "───");
}

#[test]
fn paths_are_those_of_the_standard_library() {
    let paths = [
        "", "/", ".", "..", "a", "a/", "a/b.txt", "/a//b/./c.tar.gz", "./x", "a/..", ".hidden",
        "a.", "a/.b.c", "//x", "a/./", "foo.rs/", "é/ü.Ö", "...", "a..b",
    ];
    for p in paths {
        let std_path = std::path::Path::new(p);
        let expected: Vec<String> = std_path
            .components()
            .map(|c| c.as_os_str().to_string_lossy().to_string())
            .collect();
        assert_eq!(components(p), expected, "{p:?}");
        assert_eq!(
            file_name(p),
            std_path.file_name().map(|n| n.to_string_lossy().to_string()),
            "{p:?}"
        );
        assert_eq!(
            extension(p),
            std_path.extension().map(|n| n.to_string_lossy().to_string()),
            "{p:?}"
        );
        for q in paths {
            let other = std::path::Path::new(q);
            assert_eq!(same_path(p, q), std_path == other, "{p:?} {q:?}");
            assert_eq!(path_key(p) == path_key(q), std_path == other, "{p:?} {q:?}");
            assert_eq!(join(p, q), std_path.join(other).to_string_lossy(), "{p:?} {q:?}");
        }
    }
}
