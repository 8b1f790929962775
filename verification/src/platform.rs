//! Which versions of macOS the preview runs on.
use crate::text::{self, chars_of, decimal_of, trim};
use crate::webview::{self, debug_text};
use vstd::prelude::*;
use vstd::string::*;

verus! {

/// The oldest major version of macOS that is supported.
pub const MIN_MACOS_MAJOR: u64 = 15;

/// Why the preview does not run here.
#[derive(Debug, PartialEq, Eq)]
pub enum PlatformError {
    /// The system is not macOS.
    UnsupportedOs,
    /// The version of macOS is too old.
    UnsupportedMacosVersion(String),
    /// The version of macOS is not known, and why.
    VersionDetectionFailed(String),
}

/// Why the preview does not run here.
pub enum PlatformErrorView {
    UnsupportedOs,
    UnsupportedMacosVersion(Seq<char>),
    VersionDetectionFailed(Seq<char>),
}

impl View for PlatformError {
    type V = PlatformErrorView;

    open spec fn view(&self) -> PlatformErrorView {
        match self {
            PlatformError::UnsupportedOs => PlatformErrorView::UnsupportedOs,
            PlatformError::UnsupportedMacosVersion(version) =>
                PlatformErrorView::UnsupportedMacosVersion(version@),
            PlatformError::VersionDetectionFailed(reason) =>
                PlatformErrorView::VersionDetectionFailed(reason@),
        }
    }
}

impl PlatformErrorView {
    /// The error in words. It always names the oldest version that is supported.
    pub open spec fn words(self) -> Seq<char> {
        "collab requires macOS "@ + text::decimal(MIN_MACOS_MAJOR as nat) + match self {
            PlatformErrorView::UnsupportedOs =>
                " or later; this operating system is not supported"@,
            PlatformErrorView::UnsupportedMacosVersion(version) =>
                " or later; detected macOS "@ + version,
            PlatformErrorView::VersionDetectionFailed(reason) =>
                " or later; failed to detect macOS version: "@ + reason,
        }
    }
}

impl PlatformError {
    /// The error in words.
    pub fn message(&self) -> (message: String)
        ensures
            message@ == self@.words(),
    {
        let mut message = "collab requires macOS ".to_owned();
        message.append(decimal_of(MIN_MACOS_MAJOR).as_str());
        let ghost start = message@;
        match self {
            PlatformError::UnsupportedOs => {
                message.append(" or later; this operating system is not supported");
            },
            PlatformError::UnsupportedMacosVersion(version) => {
                message.append(" or later; detected macOS ");
                message.append(version.as_str());
                assert(message@ =~= start + (" or later; detected macOS "@ + version@));
            },
            PlatformError::VersionDetectionFailed(reason) => {
                message.append(" or later; failed to detect macOS version: ");
                message.append(reason.as_str());
                assert(message@ =~= start + (" or later; failed to detect macOS version: "@
                    + reason@));
            },
        }
        message
    }
}

/// The value of decimal digits.
pub open spec fn digits_value(digits: Seq<char>) -> int
    decreases digits.len(),
{
    if digits.len() == 0 {
        0
    } else {
        digits_value(digits.drop_last()) * 10 + (digits.last() as int - '0' as int)
    }
}

/// The number that a text denotes in decimal notation, possibly with a plus sign
/// before it, if it is one of 64 bits.
pub open spec fn parsed_number(content: Seq<char>) -> Option<u64> {
    let digits = without_plus(content);
    if digits.len() > 0 && all_digits(digits) && digits_value(digits) <= u64::MAX {
        Some(digits_value(digits) as u64)
    } else {
        None
    }
}

/// A text without a plus sign at its start.
pub open spec fn without_plus(content: Seq<char>) -> Seq<char> {
    if content.len() > 0 && content[0] == '+' {
        content.skip(1)
    } else {
        content
    }
}

/// A text is made of decimal digits.
pub open spec fn all_digits(content: Seq<char>) -> bool {
    forall|i: int| 0 <= i < content.len() ==> text::ascii_digit(#[trigger] content[i])
}

proof fn lemma_digits_value_grows(digits: Seq<char>, count: int)
    requires
        0 <= count <= digits.len(),
        all_digits(digits),
    ensures
        0 <= digits_value(digits.take(count)) <= digits_value(digits),
    decreases digits.len(),
{
    if count < digits.len() {
        let rest = digits.drop_last();
        assert forall|i: int| 0 <= i < rest.len() implies text::ascii_digit(#[trigger] rest[i]) by {
            assert(rest[i] == digits[i]);
        }
        assert(rest.take(count) =~= digits.take(count));
        lemma_digits_value_grows(rest, count);
        assert(text::ascii_digit(digits[digits.len() - 1]));
    } else {
        assert(digits.take(count) =~= digits);
        if digits.len() > 0 {
            let rest = digits.drop_last();
            assert forall|i: int| 0 <= i < rest.len() implies text::ascii_digit(
                #[trigger] rest[i],
            ) by {
                assert(rest[i] == digits[i]);
            }
            assert(rest.take(rest.len() as int) =~= rest);
            lemma_digits_value_grows(rest, rest.len() as int);
            assert(text::ascii_digit(digits[digits.len() - 1]));
        }
    }
}

/// The number that the characters up to `end` denote.
fn parse_number(chars: &Vec<char>, end: usize) -> (r: Option<u64>)
    requires
        end <= chars@.len(),
    ensures
        r == parsed_number(chars@.take(end as int)),
{
    let ghost content = chars@.take(end as int);
    let start: usize = if end > 0 && chars[0] == '+' {
        1
    } else {
        0
    };
    let ghost digits = without_plus(content);
    assert(digits =~= chars@.subrange(start as int, end as int));
    if start == end {
        return None;
    }
    let mut value: u64 = 0;
    let mut overflow = false;
    let mut i: usize = start;
    assert(digits.take(0) =~= Seq::<char>::empty());
    while i < end
        invariant
            start <= i <= end <= chars@.len(),
            digits == chars@.subrange(start as int, end as int),
            forall|k: int| 0 <= k < i - start ==> text::ascii_digit(#[trigger] digits[k]),
            !overflow ==> value == digits_value(digits.take(i - start)),
            overflow ==> digits_value(digits.take(i - start)) > u64::MAX,
            content == chars@.take(end as int),
            digits == without_plus(content),
        decreases end - i,
    {
        let c = chars[i];
        let ghost at = i - start;
        assert(digits[at] == c);
        if !('0' <= c && c <= '9') {
            assert(!text::ascii_digit(digits[at]));
            return None;
        }
        let ghost before = digits.take(at);
        assert(digits.take(at + 1).drop_last() =~= before);
        assert(digits.take(at + 1).last() == c);
        proof {
            assert forall|k: int| 0 <= k < before.len() implies text::ascii_digit(
                #[trigger] before[k],
            ) by {
                assert(before[k] == digits[k]);
            }
            assert(before.take(before.len() as int) =~= before);
            lemma_digits_value_grows(before, before.len() as int);
        }
        let digit: u64 = (c as u32 - '0' as u32) as u64;
        if !overflow {
            match value.checked_mul(10) {
                Some(tenfold) => match tenfold.checked_add(digit) {
                    Some(sum) => {
                        value = sum;
                    },
                    None => {
                        overflow = true;
                    },
                },
                None => {
                    overflow = true;
                },
            }
        }
        i += 1;
    }
    assert(digits.take(end - start) =~= digits);
    if overflow {
        None
    } else {
        Some(value)
    }
}

/// The position of the first dot, from `from` on, or the end of the text.
pub open spec fn first_dot(content: Seq<char>, from: int) -> int
    decreases content.len() - from,
{
    if 0 <= from < content.len() && content[from] != '.' {
        first_dot(content, from + 1)
    } else {
        from
    }
}

/// The major version in a version number: what stands before the first dot.
pub open spec fn major_version(raw: Seq<char>) -> Option<u64> {
    let content = text::trimmed(raw);
    parsed_number(content.take(first_dot(content, 0)))
}

/// The major version in a version number such as `15.7.7`.
pub fn parse_macos_major_version(raw: &str) -> (r: Option<u64>)
    ensures
        r == major_version(raw@),
{
    let content = trim(raw);
    let chars = chars_of(content.as_str());
    let mut end: usize = 0;
    while end < chars.len() && chars[end] != '.'
        invariant
            end <= chars@.len(),
            first_dot(chars@, 0) == first_dot(chars@, end as int),
        decreases chars.len() - end,
    {
        end += 1;
    }
    parse_number(&chars, end)
}

/// Tests whether a major version of macOS is supported.
pub fn is_supported_macos_major(major: u64) -> (r: bool)
    ensures
        r == (major >= MIN_MACOS_MAJOR),
{
    major >= MIN_MACOS_MAJOR
}

/// What was found out about the system.
pub enum Detected {
    /// It is not macOS.
    OtherSystem,
    /// It is macOS, and the program that tells the version could not be run, and
    /// why.
    Unknown(String),
    /// It is macOS, and the program that tells the version ended with this status.
    Exited(String),
    /// It is macOS, and this is what the program that tells the version printed.
    Printed(String),
}

/// Why the preview does not run, if it does not.
pub open spec fn platform_problem(detected: Detected) -> Option<PlatformErrorView> {
    match detected {
        Detected::OtherSystem => Some(PlatformErrorView::UnsupportedOs),
        Detected::Unknown(reason) => Some(PlatformErrorView::VersionDetectionFailed(reason@)),
        Detected::Exited(status) => Some(
            PlatformErrorView::VersionDetectionFailed("sw_vers exited with "@ + status@),
        ),
        Detected::Printed(raw) => match major_version(raw@) {
            None => Some(
                PlatformErrorView::VersionDetectionFailed(
                    "unparseable version "@ + webview::debug_quoted(raw@),
                ),
            ),
            Some(major) => if major >= MIN_MACOS_MAJOR {
                None
            } else {
                Some(PlatformErrorView::UnsupportedMacosVersion(text::trimmed(raw@)))
            },
        },
    }
}

/// Accepts the system, or says why the preview does not run on it.
pub fn ensure_supported_platform(detected: Detected) -> (r: Result<(), PlatformError>)
    ensures
        match r {
            Ok(_) => platform_problem(detected) is None,
            Err(error) => platform_problem(detected) == Some(error@),
        },
{
    match detected {
        Detected::OtherSystem => Err(PlatformError::UnsupportedOs),
        Detected::Unknown(reason) => Err(PlatformError::VersionDetectionFailed(reason)),
        Detected::Exited(status) => {
            let mut reason = "sw_vers exited with ".to_owned();
            reason.append(status.as_str());
            Err(PlatformError::VersionDetectionFailed(reason))
        },
        Detected::Printed(raw) => match parse_macos_major_version(raw.as_str()) {
            None => {
                let mut reason = "unparseable version ".to_owned();
                reason.append(debug_text(raw.as_str()).as_str());
                Err(PlatformError::VersionDetectionFailed(reason))
            },
            Some(major) => if is_supported_macos_major(major) {
                Ok(())
            } else {
                Err(PlatformError::UnsupportedMacosVersion(trim(raw.as_str())))
            },
        },
    }
}

} // verus!
