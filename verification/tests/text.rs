use sysfetch::numerals::u64_to_string;
use sysfetch::text::remove_char;
use sysfetch::text::split_once_char;
use sysfetch::text::str_eq;
use sysfetch::text::str_has_prefix;

#[test]
fn decimal_rendering() {
    assert_eq!(u64_to_string(0), "0");
    assert_eq!(u64_to_string(7), "7");
    assert_eq!(u64_to_string(42), "42");
    assert_eq!(u64_to_string(90061), "90061");
    assert_eq!(u64_to_string(18446744073709551615), "18446744073709551615");
}

#[test]
fn prefix_tests() {
    assert!(str_has_prefix("/bin/zsh", "/bin/"));
    assert!(!str_has_prefix("/usr/bin/zsh", "/bin/"));
    assert!(str_has_prefix("abc", ""));
    assert!(!str_has_prefix("ab", "abc"));
}

#[test]
fn string_equality() {
    assert!(str_eq("Darwin", "Darwin"));
    assert!(!str_eq("Darwin", "Linux"));
    assert!(!str_eq("Darwin", "Darwin "));
    assert!(str_eq("", ""));
}

#[test]
fn removing_characters() {
    assert_eq!(remove_char("\"Test OS 1.0\"", '"'), "Test OS 1.0");
    assert_eq!(remove_char("one\ntwo\n", '\n'), "onetwo");
    assert_eq!(remove_char("plain", 'x'), "plain");
    assert_eq!(remove_char("", 'x'), "");
}

#[test]
fn splitting_at_a_separator() {
    assert_eq!(
        split_once_char("12.6", '.'),
        Some(("12".to_string(), "6".to_string()))
    );
    assert_eq!(
        split_once_char("13.2.1", '.'),
        Some(("13".to_string(), "2.1".to_string()))
    );
    assert_eq!(split_once_char("14", '.'), None);
    assert_eq!(split_once_char("", '.'), None);
    assert_eq!(
        split_once_char(".x", '.'),
        Some(("".to_string(), "x".to_string()))
    );
}
