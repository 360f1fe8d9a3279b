use sysfetch::facts::FetchError;
use sysfetch::os::classify_os;
use sysfetch::os::first_pretty_line;
use sysfetch::os::format_mac_release;
use sysfetch::os::format_os;
use sysfetch::os::mac_nickname;
use sysfetch::os::parse_os_release;
use sysfetch::os::OsKind;

#[test]
fn kernel_names() {
    assert_eq!(classify_os("Darwin"), Ok(OsKind::MacOs));
    assert_eq!(classify_os("Linux"), Ok(OsKind::Linux));
    assert_eq!(classify_os("FreeBSD"), Err(FetchError::UnrecognisedOs));
    assert_eq!(classify_os(""), Err(FetchError::UnrecognisedOs));
}

#[test]
fn os_line_icons() {
    assert_eq!(
        format_os(OsKind::MacOs, "macOS Monterey"),
        " \u{1b}[36m\u{e711}\u{1b}[0m macOS Monterey"
    );
    assert_eq!(
        format_os(OsKind::Linux, "Test OS 1.0"),
        " \u{1b}[36m\u{e712}\u{1b}[0m Test OS 1.0"
    );
}

#[test]
fn mac_nickname_table() {
    assert_eq!(mac_nickname("11"), "Big Sur");
    assert_eq!(mac_nickname("12"), "Monterey");
    assert_eq!(mac_nickname("13"), "Ventura");
    assert_eq!(mac_nickname("14"), "");
    assert_eq!(mac_nickname("10"), "");
}

#[test]
fn mac_release_known_version() {
    assert_eq!(
        format_mac_release("macOS\n", "12.6"),
        Ok("macOS Monterey".to_string())
    );
    assert_eq!(
        format_mac_release("macOS\n", "13.2.1"),
        Ok("macOS Ventura".to_string())
    );
}

#[test]
fn mac_release_unmapped_version_is_no_error() {
    assert_eq!(format_mac_release("macOS\n", "14.0"), Ok("macOS ".to_string()));
}

#[test]
fn mac_release_without_dot_is_unrecognised() {
    assert_eq!(
        format_mac_release("macOS\n", "12"),
        Err(FetchError::UnrecognisedMacVersion)
    );
    assert_eq!(
        format_mac_release("macOS\n", ""),
        Err(FetchError::UnrecognisedMacVersion)
    );
}

#[test]
fn os_release_pretty_name_is_extracted_unquoted() {
    let contents = "NAME=\"Test\"\nPRETTY_NAME=\"Test OS 1.0\"\nID=test\n";
    assert_eq!(parse_os_release(contents), Ok("Test OS 1.0".to_string()));
}

#[test]
fn os_release_first_pretty_name_wins() {
    let contents = "PRETTY_NAME=\"First\"\nPRETTY_NAME=\"Second\"\n";
    assert_eq!(parse_os_release(contents), Ok("First".to_string()));
}

#[test]
fn os_release_without_pretty_name_is_unrecognised() {
    assert_eq!(
        parse_os_release("NAME=\"Test\"\nID=test\n"),
        Err(FetchError::UnrecognisedDistro)
    );
    assert_eq!(parse_os_release(""), Err(FetchError::UnrecognisedDistro));
}

#[test]
fn os_release_pretty_name_without_equals_is_unrecognised() {
    // found by the line scan, but the `=` never comes
    assert_eq!(
        parse_os_release("PRETTY_NAMEX\"oops\"\n"),
        Err(FetchError::UnrecognisedDistro)
    );
}

#[test]
fn pretty_line_scan() {
    assert_eq!(
        first_pretty_line("a\nPRETTY_NAME=x\nb"),
        Some("PRETTY_NAME=x".to_string())
    );
    assert_eq!(first_pretty_line("a\nb"), None);
    assert_eq!(
        first_pretty_line("PRETTY_NAME=y"),
        Some("PRETTY_NAME=y".to_string())
    );
}
