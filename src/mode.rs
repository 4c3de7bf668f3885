use vstd::prelude::*;
use vstd::string::StrSliceExecFns;

use crate::error::{Error, ErrorKind};

verus! {

/// Largest value a permission field can hold: setuid, setgid, sticky and
/// the nine rwx bits.
pub const PERMISSION_MASK: u32 = 0o7777;

/// The owner's write bit.
pub const OWNER_WRITE: u32 = 0o200;

pub open spec fn is_octal_digit(c: char) -> bool {
    '0' <= c <= '7'
}

pub open spec fn digit_value(c: char) -> int {
    c as int - '0' as int
}

/// A permission string: three octal digits, or four where the first is a
/// file-type / setuid digit.
pub open spec fn is_mode_string(s: Seq<char>) -> bool {
    &&& s.len() == 3 || s.len() == 4
    &&& forall|i: int| 0 <= i < s.len() ==> is_octal_digit(#[trigger] s[i])
}

/// The value of the last three digits, read in base eight.
pub open spec fn mode_value(s: Seq<char>) -> int {
    let n = s.len() as int;
    64 * digit_value(s[n - 3]) + 8 * digit_value(s[n - 2]) + digit_value(s[n - 1])
}

/// Permission bits with any file-type bits above them stripped.
pub open spec fn permission_bits(mode: u32) -> u32 {
    mode & PERMISSION_MASK
}

/// True when the owner may not write: the read-only test that decides
/// whether a content write must first relax the mode.
pub open spec fn is_read_only(mode: u32) -> bool {
    mode & OWNER_WRITE == 0
}

/// The leading digit of the four-character form is dropped: prefixing a
/// three-digit permission string with any octal digit changes neither
/// whether it parses nor its value (`"644"` and `"0644"` are both `0o644`).
pub proof fn lemma_leading_digit_dropped(digits: Seq<char>, lead: char)
    requires
        digits.len() == 3,
        is_octal_digit(lead),
    ensures
        is_mode_string(seq![lead] + digits) == is_mode_string(digits),
        mode_value(seq![lead] + digits) == mode_value(digits),
{
    let s = seq![lead] + digits;
    assert forall|i: int| 0 <= i < 3 implies s[i + 1] == digits[i] by {}
    if is_mode_string(digits) {
        assert forall|i: int| 0 <= i < s.len() implies is_octal_digit(#[trigger] s[i]) by {
            if i > 0 {
                assert(s[i] == digits[i - 1]);
            }
        }
    }
    if is_mode_string(s) {
        assert forall|i: int| 0 <= i < digits.len() implies is_octal_digit(#[trigger] digits[i]) by {
            assert(s[i + 1] == digits[i]);
        }
    }
}

/// Parses a permission string such as `"644"` or `"0644"`.
///
/// Every character must be an octal digit; in the four-character form the
/// leading digit is dropped. Anything else is a format error carrying the
/// offending string.
pub fn parse_octal(s: &str) -> (r: Result<u32, Error>)
    ensures
        match r {
            Ok(v) => is_mode_string(s@) && v as int == mode_value(s@),
            Err(e) => !is_mode_string(s@) && e.kind == ErrorKind::InvalidFormat && e.message@ == s@,
        },
{
    let n = s.unicode_len();
    if n != 3 && n != 4 {
        return Err(Error::invalid_format(s));
    }
    let mut i: usize = 0;
    while i < n
        invariant
            n == s@.len(),
            i <= n,
            forall|j: int| 0 <= j < i ==> is_octal_digit(#[trigger] s@[j]),
        decreases n - i,
    {
        let c = s.get_char(i);
        if !('0' <= c && c <= '7') {
            return Err(Error::invalid_format(s));
        }
        i = i + 1;
    }
    let a = s.get_char(n - 3) as u32 - '0' as u32;
    let b = s.get_char(n - 2) as u32 - '0' as u32;
    let c = s.get_char(n - 1) as u32 - '0' as u32;
    Ok(64 * a + 8 * b + c)
}

/// Strips the file-type bits a platform reports above the permission bits
/// (`0o100644` becomes `0o644`).
pub fn normalize_mode(mode: u32) -> (r: u32)
    ensures
        r == permission_bits(mode),
        r <= PERMISSION_MASK,
{
    assert(mode & PERMISSION_MASK <= PERMISSION_MASK) by (bit_vector);
    mode & PERMISSION_MASK
}

/// Whether the owner lacks the write bit.
pub fn read_only(mode: u32) -> (r: bool)
    ensures
        r == is_read_only(mode),
{
    mode & OWNER_WRITE == 0
}

} // verus!
