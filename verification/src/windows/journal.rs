//! What the change journal reports of itself.

use vstd::prelude::*;

use crate::platform::{reports, PlatformError, PlatformErrorKind, PlatformResult};
use crate::search::ranking::{occurs_at, starts_with_text};
use crate::text::{char_with_code, chars_of, in_a_row};

verus! {

/// The state of a journal.
#[derive(Clone, Copy, Debug, PartialEq, Eq, Structural)]
pub struct JournalState {
    /// The journal.
    pub identity: u64,
    /// Its first record.
    pub first_position: i64,
    /// Its next record.
    pub next_position: i64,
    /// The lowest position that may be read.
    pub lowest_valid_position: i64,
}

/// The first record that can be read.
pub open spec fn retained(state: JournalState) -> i64 {
    if state.first_position > state.lowest_valid_position {
        state.first_position
    } else {
        state.lowest_valid_position
    }
}

/// The first record that can be read.
pub fn retained_start(state: JournalState) -> (r: i64)
    ensures
        r == retained(state),
{
    if state.first_position > state.lowest_valid_position {
        state.first_position
    } else {
        state.lowest_valid_position
    }
}

/// The category of a native error code.
pub open spec fn error_kind(code: Option<i32>) -> PlatformErrorKind {
    match code {
        Some(5) => PlatformErrorKind::PermissionDenied,
        Some(2) => PlatformErrorKind::Unavailable,
        Some(3) => PlatformErrorKind::Unavailable,
        Some(21) => PlatformErrorKind::Unavailable,
        Some(1178) => PlatformErrorKind::Unavailable,
        Some(1179) => PlatformErrorKind::Unsupported,
        Some(1181) => PlatformErrorKind::SourceHistoryGap,
        _ => PlatformErrorKind::Io,
    }
}

/// The category of a native error code.
pub fn native_error_kind(code: Option<i32>) -> (r: PlatformErrorKind)
    ensures
        r == error_kind(code),
{
    match code {
        Some(5) => PlatformErrorKind::PermissionDenied,
        Some(2) => PlatformErrorKind::Unavailable,
        Some(3) => PlatformErrorKind::Unavailable,
        Some(21) => PlatformErrorKind::Unavailable,
        Some(1178) => PlatformErrorKind::Unavailable,
        Some(1179) => PlatformErrorKind::Unsupported,
        Some(1181) => PlatformErrorKind::SourceHistoryGap,
        _ => PlatformErrorKind::Io,
    }
}

/// The category of a native error code of a directory lookup. A directory may be gone before its
/// records are read; the lookup then fails with an invalid parameter, which is transient.
pub fn resolve_error_kind(code: Option<i32>) -> (r: PlatformErrorKind)
    ensures
        r == (if code == Some(87i32) {
            PlatformErrorKind::Unavailable
        } else {
            error_kind(code)
        }),
{
    match code {
        Some(87) => PlatformErrorKind::Unavailable,
        _ => native_error_kind(code),
    }
}

/// Checks that the kernel returned a whole journal state.
pub fn check_state_length(returned: usize, expected: usize) -> (r: PlatformResult<()>)
    ensures
        match r {
            Ok(()) => returned >= expected,
            Err(error) => returned < expected && reports(
                error,
                PlatformErrorKind::Io,
                "query_usn_journal"@,
                "kernel returned a truncated journal state"@,
            ),
        },
{
    if returned < expected {
        return Err(
            PlatformError::new(
                PlatformErrorKind::Io,
                "query_usn_journal",
                "kernel returned a truncated journal state",
            ),
        );
    }
    Ok(())
}

/// Bytes of the position in front of a journal page.
pub const PAGE_HEADER_BYTES: usize = 8;

/// Checks that the kernel returned a page that fits the buffer and has a position.
pub fn check_page_length(returned: usize, capacity: usize) -> (r: PlatformResult<()>)
    ensures
        match r {
            Ok(()) => PAGE_HEADER_BYTES <= returned <= capacity,
            Err(error) => !(PAGE_HEADER_BYTES <= returned <= capacity) && reports(
                error,
                PlatformErrorKind::Io,
                "read_usn_journal"@,
                "kernel returned an invalid journal page length"@,
            ),
        },
{
    if returned < PAGE_HEADER_BYTES || returned > capacity {
        return Err(
            PlatformError::new(
                PlatformErrorKind::Io,
                "read_usn_journal",
                "kernel returned an invalid journal page length",
            ),
        );
    }
    Ok(())
}

/// Checks that a resolved path fits the buffer.
pub fn check_path_length(length: usize, capacity: usize) -> (r: PlatformResult<()>)
    ensures
        match r {
            Ok(()) => length < capacity,
            Err(error) => length >= capacity && reports(
                error,
                PlatformErrorKind::ResourceExhausted,
                "resolve_usn_parent"@,
                "resolved path exceeded the bounded UTF-16 buffer"@,
            ),
        },
{
    if length >= capacity {
        return Err(
            PlatformError::new(
                PlatformErrorKind::ResourceExhausted,
                "resolve_usn_parent",
                "resolved path exceeded the bounded UTF-16 buffer",
            ),
        );
    }
    Ok(())
}

/// A length as the kernel takes it.
pub fn checked_len(length: usize) -> (r: PlatformResult<u32>)
    ensures
        match r {
            Ok(n) => n == length,
            Err(error) => length > u32::MAX && reports(
                error,
                PlatformErrorKind::ResourceExhausted,
                "windows_buffer_size"@,
                "native buffer length exceeds u32"@,
            ),
        },
{
    if length as u64 > u32::MAX as u64 {
        return Err(
            PlatformError::new(
                PlatformErrorKind::ResourceExhausted,
                "windows_buffer_size",
                "native buffer length exceeds u32",
            ),
        );
    }
    Ok(length as u32)
}

/// A text without the slashes at its end.
pub open spec fn without_trailing_slashes(text: Seq<char>) -> Seq<char>
    decreases text.len(),
{
    if text.len() > 0 && (text.last() == '\\' || text.last() == '/') {
        without_trailing_slashes(text.drop_last())
    } else {
        text
    }
}

/// Drops the slashes at the end of a text.
pub fn trim_slashes(text: &str) -> (r: String)
    ensures
        r@ == without_trailing_slashes(text@),
{
    let chars = chars_of(text);
    let mut end: usize = chars.len();
    assert(chars@.take(end as int) =~= chars@);
    while end > 0 && (chars[end - 1] == '\\' || chars[end - 1] == '/')
        invariant
            end <= chars@.len(),
            chars@ == text@,
            without_trailing_slashes(text@.take(end as int)) == without_trailing_slashes(text@),
        decreases end,
    {
        assert(text@.take(end as int).drop_last() =~= text@.take(end - 1));
        end = end - 1;
    }
    let mut r = String::new();
    let mut i: usize = 0;
    while i < end
        invariant
            i <= end <= chars@.len(),
            chars@ == text@,
            r@ =~= text@.take(i as int),
        decreases end - i,
    {
        r.push(chars[i]);
        i = i + 1;
    }
    r
}

/// A volume is opened by its drive letter, or by its name if it has none.
pub open spec fn is_device_path(
    r: PlatformResult<String>,
    units: Seq<u16>,
    display: Seq<char>,
) -> bool {
    if units.len() >= 2 && units[1] == 0x3a {
        match r {
            Ok(path) => exists|letter: char| #[trigger]
                is_letter(letter, units[0]) && path@ == "\\\\.\\"@ + seq![letter] + ":"@,
            Err(error) => 0xd800 <= units[0] <= 0xdfff && reports(
                error,
                PlatformErrorKind::Unsupported,
                "open_usn_volume"@,
                "drive letter is not valid Unicode"@,
            ),
        }
    } else {
        match r {
            Ok(path) => occurs_at(display, "\\\\?\\Volume{"@, 0) && path@
                == without_trailing_slashes(display),
            Err(error) => !occurs_at(display, "\\\\?\\Volume{"@, 0) && reports(
                error,
                PlatformErrorKind::Unsupported,
                "open_usn_volume"@,
                "volume has no supported Windows device path"@,
            ),
        }
    }
}

/// The character with the code of a unit.
pub open spec fn is_letter(letter: char, unit: u16) -> bool {
    letter as u32 == unit
}

/// The device path of a root, given its code units and its text.
pub fn volume_device_path(units: &Vec<u16>, display: &str) -> (r: PlatformResult<String>)
    ensures
        is_device_path(r, units@, display@),
{
    if units.len() >= 2 && units[1] == 0x3a {
        match char_with_code(units[0] as u32) {
            Some(letter) => {
                let mut text = String::new();
                text.push(letter);
                assert(text@ =~= seq![letter]);
                assert(is_letter(letter, units@[0]));
                Ok(in_a_row("\\\\.\\", text.as_str(), ":"))
            },
            None => Err(
                PlatformError::new(
                    PlatformErrorKind::Unsupported,
                    "open_usn_volume",
                    "drive letter is not valid Unicode",
                ),
            ),
        }
    } else if starts_with_text(display, "\\\\?\\Volume{") {
        Ok(trim_slashes(display))
    } else {
        Err(
            PlatformError::new(
                PlatformErrorKind::Unsupported,
                "open_usn_volume",
                "volume has no supported Windows device path",
            ),
        )
    }
}

} // verus!
