use sockonsole::bytes::contains_sequence;
use sockonsole::bytes::find_sequence;

#[test]
fn finds_first_occurrence() {
    assert_eq!(find_sequence(b"abcabc", b"abc"), Some(0));
    assert_eq!(find_sequence(b"xxabc", b"abc"), Some(2));
    assert_eq!(find_sequence(b"abcd", b"bc"), Some(1));
}

#[test]
fn reports_absence() {
    assert_eq!(find_sequence(b"abc", b"abd"), None);
    assert_eq!(find_sequence(b"ab", b"abc"), None);
    assert_eq!(find_sequence(b"", b"a"), None);
}

#[test]
fn occurrence_at_the_end_is_found() {
    assert_eq!(find_sequence(b"hello\n", b"o\n"), Some(4));
    assert!(contains_sequence(b"hello\n", b"o\n"));
    assert!(!contains_sequence(b"hello", b"o\n"));
}
