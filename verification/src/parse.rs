use vstd::prelude::*;

verus! {

/// Whether `c` is an ASCII decimal digit.
pub open spec fn is_digit(c: char) -> bool {
    '0' <= c && c <= '9'
}

/// Whether `s` is a non-empty run of ASCII decimal digits.
pub open spec fn all_digits(s: Seq<char>) -> bool {
    s.len() > 0 && forall|i: int| 0 <= i < s.len() ==> is_digit(#[trigger] s[i])
}

/// The number that a run of decimal digits denotes.
pub open spec fn digits_value(s: Seq<char>) -> nat
    decreases s.len(),
{
    if s.len() == 0 {
        0
    } else {
        digits_value(s.drop_last()) * 10 + ((s.last() as nat) - ('0' as nat)) as nat
    }
}

/// What decimal text denotes as a signed integer: an optional `+` or `-`
/// followed by one or more digits.
pub open spec fn signed_decimal(s: Seq<char>) -> Option<int> {
    if s.len() > 0 && s[0] == '-' && all_digits(s.skip(1)) {
        Some(-(digits_value(s.skip(1)) as int))
    } else if s.len() > 0 && s[0] == '+' && all_digits(s.skip(1)) {
        Some(digits_value(s.skip(1)) as int)
    } else if all_digits(s) {
        Some(digits_value(s) as int)
    } else {
        None
    }
}

/// What decimal text denotes as an unsigned integer: an optional `+`
/// followed by one or more digits.
pub open spec fn unsigned_decimal(s: Seq<char>) -> Option<nat> {
    if s.len() > 0 && s[0] == '+' && all_digits(s.skip(1)) {
        Some(digits_value(s.skip(1)))
    } else if all_digits(s) {
        Some(digits_value(s))
    } else {
        None
    }
}

/// The `i32` that text parses to, if any.
pub open spec fn spec_parse_i32(s: Seq<char>) -> Option<i32> {
    match signed_decimal(s) {
        Some(v) => if i32::MIN <= v <= i32::MAX {
            Some(v as i32)
        } else {
            None
        },
        None => None,
    }
}

/// The `usize` that text parses to, if any.
pub open spec fn spec_parse_usize(s: Seq<char>) -> Option<usize> {
    match unsigned_decimal(s) {
        Some(v) => if v <= usize::MAX {
            Some(v as usize)
        } else {
            None
        },
        None => None,
    }
}

/// The `u64` that text parses to, if any.
pub open spec fn spec_parse_u64(s: Seq<char>) -> Option<u64> {
    match unsigned_decimal(s) {
        Some(v) => if v <= u64::MAX {
            Some(v as u64)
        } else {
            None
        },
        None => None,
    }
}

/// The message that std's integer parser gives when `s` is not a `usize`.
pub uninterp spec fn usize_parse_error_text(s: Seq<char>) -> Seq<char>;

/// The message that std's integer parser gives when `s` is not a `u64`.
pub uninterp spec fn u64_parse_error_text(s: Seq<char>) -> Seq<char>;

/// std's `str::parse::<i32>`: an optional sign and at least one decimal
/// digit, with no other character, whose value fits in an `i32`; the
/// error's kind is dropped.
#[verifier::external_body]
pub(crate) fn parse_i32(s: &str) -> (r: Option<i32>)
    ensures
        r == spec_parse_i32(s@),
{
    s.parse::<i32>().ok()
}

/// std's `str::parse::<usize>`: an optional `+` and at least one decimal
/// digit, with no other character, whose value fits in a `usize`. The
/// error is handed on as its message, which is named here, not stated.
#[verifier::external_body]
pub(crate) fn parse_usize(s: &str) -> (r: Result<usize, String>)
    ensures
        match r {
            Ok(v) => spec_parse_usize(s@) == Some(v),
            Err(e) => spec_parse_usize(s@) is None && e@ == usize_parse_error_text(s@),
        },
{
    s.parse::<usize>().map_err(|e| e.to_string())
}

/// std's `str::parse::<u64>`: an optional `+` and at least one decimal
/// digit, with no other character, whose value fits in a `u64`. The
/// error is handed on as its message, which is named here, not stated.
#[verifier::external_body]
pub(crate) fn parse_u64(s: &str) -> (r: Result<u64, String>)
    ensures
        match r {
            Ok(v) => spec_parse_u64(s@) == Some(v),
            Err(e) => spec_parse_u64(s@) is None && e@ == u64_parse_error_text(s@),
        },
{
    s.parse::<u64>().map_err(|e| e.to_string())
}

} // verus!
