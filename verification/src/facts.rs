//! The output lines themselves: the common `icon value` layout, the
//! `user@host` line, the uptime line and the shell line, and the error type
//! shared by every fact lookup.

use vstd::prelude::*;
use vstd::string::StrSliceExecFns;
use vstd::string::StringExecFns;

verus! {

/// Why a fact could not be resolved. The corresponding output line is simply
/// omitted; no failure aborts the program or affects another fact.
#[derive(Clone, Copy, Debug, PartialEq, Eq, Structural)]
pub enum FetchError {
    /// The kernel name is neither `Darwin` nor `Linux`.
    UnrecognisedOs,
    /// No usable `PRETTY_NAME=` entry in the OS-release file; a shell path
    /// outside `/bin/` reports this same error.
    UnrecognisedDistro,
    /// A product version string without a `.` separator.
    UnrecognisedMacVersion,
}

impl FetchError {
    /// The human-readable message for this error.
    pub fn message(&self) -> (r: &'static str)
        ensures
            *self == FetchError::UnrecognisedOs ==> r@ == "unrecognised os"@,
            *self == FetchError::UnrecognisedDistro ==> r@ == "unrecognised linux distro"@,
            *self == FetchError::UnrecognisedMacVersion ==> r@ == "unrecognised macOS version"@,
    {
        match self {
            FetchError::UnrecognisedOs => "unrecognised os",
            FetchError::UnrecognisedDistro => "unrecognised linux distro",
            FetchError::UnrecognisedMacVersion => "unrecognised macOS version",
        }
    }
}

/// A fact line: a leading space, the icon in the accent colour, then the
/// value: ` <cyan><key><reset> <value>`.
pub open spec fn spec_format_data(key: Seq<char>, value: Seq<char>) -> Seq<char> {
    " "@ + "\x1b[36m"@ + key + "\x1b[0m"@ + " "@ + value
}

/// The `user@host` line, both names in the accent colour.
pub open spec fn spec_format_hostname(user: Seq<char>, host: Seq<char>) -> Seq<char> {
    "\x1b[36m"@ + user + "\x1b[0m"@ + "@"@ + "\x1b[36m"@ + host + "\x1b[0m"@
}

/// Renders one fact as ` <cyan><key><reset> <value>`.
pub fn format_data(key: &str, value: &str) -> (r: String)
    ensures
        r@ == spec_format_data(key@, value@),
{
    let mut r = String::from_str(" ");
    r.append("\x1b[36m");
    r.append(key);
    r.append("\x1b[0m");
    r.append(" ");
    r.append(value);
    proof {
        assert(r@ =~= spec_format_data(key@, value@));
    }
    r
}

/// Renders the `user@host` line.
pub fn format_hostname(user: &str, host: &str) -> (r: String)
    ensures
        r@ == spec_format_hostname(user@, host@),
{
    let mut r = String::from_str("\x1b[36m");
    r.append(user);
    r.append("\x1b[0m");
    r.append("@");
    r.append("\x1b[36m");
    r.append(host);
    r.append("\x1b[0m");
    proof {
        assert(r@ =~= spec_format_hostname(user@, host@));
    }
    r
}

/// Whole days in an uptime of `seconds` seconds.
pub open spec fn spec_uptime_days(seconds: nat) -> nat {
    seconds / 86400
}

/// Whole hours left over after the whole days.
pub open spec fn spec_uptime_hours(seconds: nat) -> nat {
    (seconds % 86400) / 3600
}

/// Whole minutes left over after the whole hours.
pub open spec fn spec_uptime_minutes(seconds: nat) -> nat {
    (seconds % 3600) / 60
}

/// The uptime rendered unit by unit: every non-zero unit among days, hours
/// and minutes in that order, `d ` and `h ` with a trailing space, `m`
/// without; seconds are never shown. An uptime under a minute renders as the
/// empty string.
pub open spec fn spec_uptime_display(seconds: nat) -> Seq<char> {
    (if spec_uptime_days(seconds) > 0 {
        crate::numerals::spec_decimal(spec_uptime_days(seconds)) + "d "@
    } else {
        Seq::<char>::empty()
    }) + (if spec_uptime_hours(seconds) > 0 {
        crate::numerals::spec_decimal(spec_uptime_hours(seconds)) + "h "@
    } else {
        Seq::<char>::empty()
    }) + (if spec_uptime_minutes(seconds) > 0 {
        crate::numerals::spec_decimal(spec_uptime_minutes(seconds)) + "m"@
    } else {
        Seq::<char>::empty()
    })
}

/// Renders the uptime line for an uptime of `seconds` seconds.
pub fn format_uptime(seconds: u64) -> (r: String)
    ensures
        r@ == spec_format_data("\u{f64f}"@, spec_uptime_display(seconds as nat)),
{
    let days: u64 = seconds / 86400;
    let hours: u64 = (seconds % 86400) / 3600;
    let minutes: u64 = (seconds % 3600) / 60;
    let mut display = String::new();
    if days > 0 {
        let d = crate::numerals::u64_to_string(days);
        display.append(d.as_str());
        display.append("d ");
    }
    if hours > 0 {
        let h = crate::numerals::u64_to_string(hours);
        display.append(h.as_str());
        display.append("h ");
    }
    if minutes > 0 {
        let m = crate::numerals::u64_to_string(minutes);
        display.append(m.as_str());
        display.append("m");
    }
    proof {
        assert(display@ =~= spec_uptime_display(seconds as nat));
    }
    format_data("\u{f64f}", display.as_str())
}

/// Resolves the shell line from the shell's path: the path must begin with
/// `/bin/`, and the part after that prefix is the shell's name. Any other
/// path leaves the fact unresolved.
pub fn format_shell(shell_path: &str) -> (r: Result<String, FetchError>)
    ensures
        match r {
            Ok(line) => crate::text::spec_has_prefix(shell_path@, "/bin/"@) && line@
                == spec_format_data("\u{f489}"@, shell_path@.skip("/bin/"@.len() as int)),
            Err(e) => e == FetchError::UnrecognisedDistro && !crate::text::spec_has_prefix(
                shell_path@,
                "/bin/"@,
            ),
        },
{
    if crate::text::str_has_prefix(shell_path, "/bin/") {
        proof {
            reveal_strlit("/bin/");
        }
        let n = shell_path.unicode_len();
        let name = shell_path.substring_char(5, n);
        Ok(format_data("\u{f489}", name))
    } else {
        Err(FetchError::UnrecognisedDistro)
    }
}

} // verus!
