use devterm_core::error::CoreError;
use devterm_core::text::{bytes_less, ends_with_component, push_decimal, same_text};

#[test]
fn byte_strings_in_lexicographic_order() {
    assert!(bytes_less(b"a", b"b"));
    assert!(!bytes_less(b"b", b"a"));
    assert!(bytes_less(b"", b"a"));
    assert!(!bytes_less(b"a", b""));
    assert!(!bytes_less(b"", b""));
    assert!(!bytes_less(b"abc", b"abc"));
    assert!(bytes_less(b"ab", b"abc"));
    assert!(!bytes_less(b"abc", b"ab"));
    assert!(bytes_less(b"abc", b"abd"));
    assert!(bytes_less(b"Z", b"a"));
    assert!(bytes_less(&[0x7f], &[0x80]));
    assert!(bytes_less(&[1, 2, 3], &[1, 3]));
}

#[test]
fn byte_order_agrees_with_the_order_of_slices() {
    let samples: [&[u8]; 7] = [b"", b"a", b"ab", b"b", b"aa", &[0xff], &[0xff, 0]];
    for x in samples {
        for y in samples {
            assert_eq!(bytes_less(x, y), x < y);
        }
    }
}

#[test]
fn texts_are_the_same_when_their_characters_are() {
    assert!(same_text("", ""));
    assert!(same_text("abc", "abc"));
    assert!(same_text("gr\u{fc}n", "gr\u{fc}n"));
    assert!(!same_text("abc", "abd"));
    assert!(!same_text("abc", "ab"));
    assert!(!same_text("", "a"));
    assert!(!same_text("Abc", "abc"));
    assert!(!same_text("u\u{308}", "\u{fc}"));
}

#[test]
fn last_component_of_a_path() {
    assert!(ends_with_component("/a/b/index", "index"));
    assert!(ends_with_component("index", "index"));
    assert!(ends_with_component("a\\index", "index"));
    assert!(ends_with_component("/\u{e9}/\u{e9}", "\u{e9}"));
    assert!(!ends_with_component("/a/b/xindex", "index"));
    assert!(!ends_with_component("/a/b/index", "ndex"));
    assert!(!ends_with_component("dex", "index"));
    assert!(!ends_with_component("/a/b/index ", "index"));
    assert!(ends_with_component("/a/", ""));
    assert!(ends_with_component("", ""));
    assert!(!ends_with_component("/a", ""));
}

#[test]
fn decimal_numerals() {
    for (n, text) in [
        (0u32, "0"),
        (7, "7"),
        (9, "9"),
        (10, "10"),
        (42, "42"),
        (100, "100"),
        (9099, "9099"),
        (1234567890, "1234567890"),
        (u32::MAX, "4294967295"),
    ] {
        let mut out = String::from("pid ");
        push_decimal(&mut out, n);
        assert_eq!(out, format!("pid {}", text));
        assert_eq!(out, format!("pid {}", n));
    }
}

#[test]
fn every_failure_has_its_message() {
    assert_eq!(CoreError::SessionNotFound.message(), "Session not found");
    assert_eq!(CoreError::PtyCreationFailure.message(), "Failed to create terminal");
    assert_eq!(CoreError::IOFailure.message(), "Terminal I/O failed");
    assert_eq!(CoreError::NotAGitRepository.message(), "Not a git repository");
    assert_eq!(CoreError::WatchSetupFailure.message(), "Failed to watch git directory");
    assert_eq!(CoreError::ProcessIdUnavailable.message(), "Failed to get process ID");
    assert_eq!(
        CoreError::UnsupportedPlatform.message(),
        "Getting terminal cwd is only supported on Linux"
    );
}
