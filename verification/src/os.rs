//! Operating-system identification: which kernel this is, the macOS release
//! nickname table, and the parser for the OS-release file's `PRETTY_NAME`
//! entry.

use crate::facts::FetchError;
use crate::text::spec_has_prefix;
use crate::text::spec_remove_char;
use crate::text::spec_split_once;
use vstd::prelude::*;
use vstd::string::StrSliceExecFns;
use vstd::string::StringExecFns;

verus! {

/// The two kernels the tool recognises.
#[derive(Clone, Copy, Debug, PartialEq, Eq, Structural)]
pub enum OsKind {
    MacOs,
    Linux,
}

/// Decides which branch of OS identification applies, from the kernel's
/// reported system name. Anything but `Darwin` or `Linux` is unrecoverable
/// for this fact.
pub fn classify_os(sysname: &str) -> (r: Result<OsKind, FetchError>)
    ensures
        sysname@ == "Darwin"@ ==> r == Ok::<OsKind, FetchError>(OsKind::MacOs),
        sysname@ == "Linux"@ ==> r == Ok::<OsKind, FetchError>(OsKind::Linux),
        sysname@ != "Darwin"@ && sysname@ != "Linux"@ ==> r == Err::<OsKind, FetchError>(
            FetchError::UnrecognisedOs,
        ),
{
    proof {
        reveal_strlit("Darwin");
        reveal_strlit("Linux");
        assert("Darwin"@.len() == 6);
        assert("Linux"@.len() == 5);
    }
    if crate::text::str_eq(sysname, "Darwin") {
        Ok(OsKind::MacOs)
    } else if crate::text::str_eq(sysname, "Linux") {
        Ok(OsKind::Linux)
    } else {
        Err(FetchError::UnrecognisedOs)
    }
}

/// The icon that heads the OS line for each kernel.
pub open spec fn spec_os_icon(kind: OsKind) -> Seq<char> {
    match kind {
        OsKind::MacOs => "\u{e711}"@,
        OsKind::Linux => "\u{e712}"@,
    }
}

/// Renders the OS line: the kernel's icon, then the release description.
pub fn format_os(kind: OsKind, release: &str) -> (r: String)
    ensures
        r@ == crate::facts::spec_format_data(spec_os_icon(kind), release@),
{
    match kind {
        OsKind::MacOs => crate::facts::format_data("\u{e711}", release),
        OsKind::Linux => crate::facts::format_data("\u{e712}", release),
    }
}

/// The nickname for a macOS release, keyed by the major version number. An
/// unmapped major version has the empty nickname, which is not an error.
pub open spec fn spec_mac_nickname(major: Seq<char>) -> Seq<char> {
    if major == "11"@ {
        "Big Sur"@
    } else if major == "12"@ {
        "Monterey"@
    } else if major == "13"@ {
        "Ventura"@
    } else {
        Seq::<char>::empty()
    }
}

/// Looks the major version number up in the nickname table.
pub fn mac_nickname(major: &str) -> (r: &'static str)
    ensures
        r@ == spec_mac_nickname(major@),
{
    if crate::text::str_eq(major, "11") {
        "Big Sur"
    } else if crate::text::str_eq(major, "12") {
        "Monterey"
    } else if crate::text::str_eq(major, "13") {
        "Ventura"
    } else {
        proof {
            reveal_strlit("");
            assert(""@ =~= Seq::<char>::empty());
        }
        ""
    }
}

/// Builds the macOS release description from the two `sw_vers` answers: the
/// product name with its trailing newline removed, a space, and the nickname
/// for the major version (the part of the product version before the first
/// `.`). A version with no `.` at all is unrecognisable.
pub fn format_mac_release(product_name: &str, product_version: &str) -> (r: Result<
    String,
    FetchError,
>)
    ensures
        match r {
            Ok(desc) => spec_split_once(product_version@, '.') is Some && desc@
                == spec_remove_char(product_name@, '\n') + " "@ + spec_mac_nickname(
                (spec_split_once(product_version@, '.')->0).0,
            ),
            Err(e) => e == FetchError::UnrecognisedMacVersion && spec_split_once(
                product_version@,
                '.',
            ) is None,
        },
{
    match crate::text::split_once_char(product_version, '.') {
        None => Err(FetchError::UnrecognisedMacVersion),
        Some(parts) => {
            let mut desc = crate::text::remove_char(product_name, '\n');
            desc.append(" ");
            desc.append(mac_nickname(parts.0.as_str()));
            Ok(desc)
        },
    }
}

/// The contents split at every `'\n'`, in order; the result always holds at
/// least one (possibly empty) line.
pub open spec fn spec_split_lines(s: Seq<char>) -> Seq<Seq<char>>
    decreases s.len(),
{
    if s.len() == 0 {
        seq![Seq::<char>::empty()]
    } else if s.first() == '\n' {
        seq![Seq::<char>::empty()] + spec_split_lines(s.drop_first())
    } else {
        let rest = spec_split_lines(s.drop_first());
        seq![seq![s.first()] + rest.first()] + rest.drop_first()
    }
}

/// Splitting always yields at least one line.
pub proof fn lemma_split_lines_nonempty(s: Seq<char>)
    ensures
        spec_split_lines(s).len() > 0,
    decreases s.len(),
{
    if s.len() > 0 {
        lemma_split_lines_nonempty(s.drop_first());
    }
}

/// When no `'\n'` stands before index `i` and one stands at `i` (or `i` is
/// the length), the line split opens with the piece up to `i`.
proof fn lemma_split_lines_at(s: Seq<char>, i: int)
    requires
        0 <= i <= s.len(),
        forall|j: int| 0 <= j < i ==> s[j] != '\n',
        i < s.len() ==> s[i] == '\n',
    ensures
        i == s.len() ==> spec_split_lines(s) == seq![s],
        i < s.len() ==> spec_split_lines(s) == seq![s.take(i)] + spec_split_lines(s.skip(i + 1)),
    decreases i,
{
    if i == 0 {
        if s.len() == 0 {
            assert(spec_split_lines(s) =~~= seq![s]);
        } else {
            assert(s.drop_first() =~= s.skip(1));
            assert(spec_split_lines(s) =~~= seq![s.take(0)] + spec_split_lines(s.skip(1)));
        }
    } else {
        let rest = s.drop_first();
        assert(forall|j: int| 0 <= j < i - 1 ==> rest[j] != '\n');
        lemma_split_lines_at(rest, i - 1);
        lemma_split_lines_nonempty(rest.skip(i));
        if i < s.len() {
            assert(rest.skip(i) =~= s.skip(i + 1));
            let lines = spec_split_lines(rest.skip(i));
            assert(spec_split_lines(rest).first() == rest.take(i - 1));
            assert(spec_split_lines(rest).drop_first() =~= lines);
            assert(seq![s.first()] + rest.take(i - 1) =~= s.take(i));
            assert(spec_split_lines(s) =~~= seq![s.take(i)] + spec_split_lines(s.skip(i + 1)));
        } else {
            assert(spec_split_lines(rest) == seq![rest]);
            assert(spec_split_lines(rest).drop_first() =~= Seq::<Seq<char>>::empty());
            assert(seq![s.first()] + rest =~= s);
            assert(spec_split_lines(s) =~~= seq![s]);
        }
    }
}

/// The first line that begins with `PRETTY_NAME`, if any.
pub open spec fn spec_first_pretty(lines: Seq<Seq<char>>) -> Option<Seq<char>>
    decreases lines.len(),
{
    if lines.len() == 0 {
        None
    } else if spec_has_prefix(lines.first(), "PRETTY_NAME"@) {
        Some(lines.first())
    } else {
        spec_first_pretty(lines.drop_first())
    }
}

/// Finds the first line of `s` that begins with `PRETTY_NAME`.
pub fn first_pretty_line(s: &str) -> (r: Option<String>)
    ensures
        match (r, spec_first_pretty(spec_split_lines(s@))) {
            (Some(found), Some(line)) => found@ == line,
            (None, None) => true,
            _ => false,
        },
    decreases s@.len(),
{
    let n = s.unicode_len();
    let mut i: usize = 0;
    while i < n && s.get_char(i) != '\n'
        invariant
            0 <= i <= n,
            n == s@.len(),
            forall|j: int| 0 <= j < i ==> s@[j] != '\n',
        decreases n - i,
    {
        i += 1;
    }
    proof {
        lemma_split_lines_at(s@, i as int);
    }
    let line = s.substring_char(0, i);
    if crate::text::str_has_prefix(line, "PRETTY_NAME") {
        proof {
            if i < n {
                lemma_split_lines_nonempty(s@.skip(i + 1));
                assert(spec_split_lines(s@).first() == line@);
            } else {
                assert(s@.take(i as int) =~= s@);
                assert(spec_split_lines(s@).first() == line@);
            }
            assert(spec_first_pretty(spec_split_lines(s@)) == Some(line@));
        }
        Some(String::from_str(line))
    } else if i < n {
        proof {
            lemma_split_lines_nonempty(s@.skip(i + 1));
            assert(spec_split_lines(s@).first() == line@);
            assert(spec_split_lines(s@).drop_first() =~= spec_split_lines(s@.skip(i + 1)));
        }
        let rest = s.substring_char(i + 1, n);
        let r = first_pretty_line(rest);
        proof {
            assert(rest@ == s@.skip(i + 1));
            assert(spec_first_pretty(spec_split_lines(s@)) == spec_first_pretty(
                spec_split_lines(rest@),
            ));
        }
        r
    } else {
        proof {
            assert(s@.take(i as int) =~= s@);
            assert(spec_split_lines(s@) == seq![s@]);
            assert(!spec_has_prefix(s@, "PRETTY_NAME"@));
            assert(spec_first_pretty(seq![s@].drop_first()) is None);
            assert(spec_first_pretty(spec_split_lines(s@)) is None);
        }
        None
    }
}

/// Extracts the OS's pretty name from the contents of the OS-release file:
/// the first line beginning with `PRETTY_NAME` must continue `=`, and the
/// value is the rest of that line with every `"` removed. A file without
/// such a line leaves the distribution unrecognised.
pub fn parse_os_release(contents: &str) -> (r: Result<String, FetchError>)
    ensures
        ({
            let found = spec_first_pretty(spec_split_lines(contents@));
            match r {
                Ok(value) => found is Some && spec_has_prefix(found->0, "PRETTY_NAME="@)
                    && value@ == spec_remove_char(
                    found->0.skip("PRETTY_NAME="@.len() as int),
                    '"',
                ),
                Err(e) => e == FetchError::UnrecognisedDistro && (found is None
                    || !spec_has_prefix(found->0, "PRETTY_NAME="@)),
            }
        }),
{
    match first_pretty_line(contents) {
        None => Err(FetchError::UnrecognisedDistro),
        Some(line) => {
            if crate::text::str_has_prefix(line.as_str(), "PRETTY_NAME=") {
                proof {
                    reveal_strlit("PRETTY_NAME=");
                }
                let n = line.as_str().unicode_len();
                let value = line.as_str().substring_char(12, n);
                Ok(crate::text::remove_char(value, '"'))
            } else {
                Err(FetchError::UnrecognisedDistro)
            }
        },
    }
}

} // verus!
