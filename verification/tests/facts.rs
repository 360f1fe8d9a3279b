use sysfetch::facts::format_data;
use sysfetch::facts::format_hostname;
use sysfetch::facts::format_uptime;
use sysfetch::facts::FetchError;

#[test]
fn format_data_layout() {
    assert_eq!(format_data("k", "v"), " \u{1b}[36mk\u{1b}[0m v");
    assert_eq!(format_data("", ""), " \u{1b}[36m\u{1b}[0m ");
}

#[test]
fn format_hostname_layout() {
    assert_eq!(
        format_hostname("alice", "box"),
        "\u{1b}[36malice\u{1b}[0m@\u{1b}[36mbox\u{1b}[0m"
    );
}

#[test]
fn uptime_one_of_each_unit_omits_seconds() {
    // 1 day, 1 hour, 1 minute, 1 second
    assert_eq!(
        format_uptime(90061),
        " \u{1b}[36m\u{f64f}\u{1b}[0m 1d 1h 1m"
    );
}

#[test]
fn uptime_under_a_minute_is_only_the_prefix() {
    assert_eq!(format_uptime(59), " \u{1b}[36m\u{f64f}\u{1b}[0m ");
    assert_eq!(format_uptime(0), " \u{1b}[36m\u{f64f}\u{1b}[0m ");
}

#[test]
fn uptime_skips_zero_units() {
    // exactly one hour: no day, no minute, trailing space after the hour
    assert_eq!(format_uptime(3600), " \u{1b}[36m\u{f64f}\u{1b}[0m 1h ");
    // 2 days and 5 minutes, no whole hour
    assert_eq!(
        format_uptime(2 * 86400 + 5 * 60),
        " \u{1b}[36m\u{f64f}\u{1b}[0m 2d 5m"
    );
    // 90 minutes: one hour and thirty minutes
    assert_eq!(
        format_uptime(5400),
        " \u{1b}[36m\u{f64f}\u{1b}[0m 1h 30m"
    );
}

#[test]
fn error_messages() {
    assert_eq!(FetchError::UnrecognisedOs.message(), "unrecognised os");
    assert_eq!(
        FetchError::UnrecognisedDistro.message(),
        "unrecognised linux distro"
    );
    assert_eq!(
        FetchError::UnrecognisedMacVersion.message(),
        "unrecognised macOS version"
    );
}

#[test]
fn shell_under_bin_resolves_to_its_name() {
    assert_eq!(
        sysfetch::facts::format_shell("/bin/zsh"),
        Ok(" \u{1b}[36m\u{f489}\u{1b}[0m zsh".to_string())
    );
    assert_eq!(
        sysfetch::facts::format_shell("/bin/bash"),
        Ok(" \u{1b}[36m\u{f489}\u{1b}[0m bash".to_string())
    );
}

#[test]
fn shell_outside_bin_is_unresolved() {
    assert_eq!(
        sysfetch::facts::format_shell("/usr/bin/zsh"),
        Err(FetchError::UnrecognisedDistro)
    );
    assert_eq!(
        sysfetch::facts::format_shell(""),
        Err(FetchError::UnrecognisedDistro)
    );
}
