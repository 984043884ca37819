//! The meaning of a hexadecimal integer string, as the standard library parses one
//! with `from_str_radix(s, 16)`: an optional sign followed by one or more hex digits.

use vstd::prelude::*;

verus! {

/// The value of one hexadecimal digit character (either case), if it is one.
pub open spec fn hex_digit_value(c: char) -> Option<int> {
    if '0' <= c && c <= '9' {
        Some(c as int - '0' as int)
    } else if 'a' <= c && c <= 'f' {
        Some(c as int - 'a' as int + 10)
    } else if 'A' <= c && c <= 'F' {
        Some(c as int - 'A' as int + 10)
    } else {
        None
    }
}

/// The value of a string of hexadecimal digits, read most significant first.
pub open spec fn hex_digits_value(s: Seq<char>) -> Option<int>
    decreases s.len(),
{
    if s.len() == 0 {
        Some(0)
    } else {
        match (hex_digits_value(s.drop_last()), hex_digit_value(s.last())) {
            (Some(high), Some(d)) => Some(high * 16 + d),
            _ => None,
        }
    }
}

/// The value of a hexadecimal integer literal with an optional leading `+`, or `-` when
/// `signed`; `None` when the string is empty, a sign alone, or holds a non-digit.
/// Range limits of the target type are not applied here.
pub open spec fn radix16_value(s: Seq<char>, signed: bool) -> Option<int> {
    if s.len() == 0 {
        None
    } else if s[0] == '+' || (signed && s[0] == '-') {
        if s.len() == 1 {
            None
        } else {
            match hex_digits_value(s.drop_first()) {
                Some(v) => Some(if s[0] == '-' {
                    -v
                } else {
                    v
                }),
                None => None,
            }
        }
    } else {
        hex_digits_value(s)
    }
}

/// The `i32` a hexadecimal string denotes, if it is well formed and in range.
pub open spec fn hex_i32(s: Seq<char>) -> Option<i32> {
    match radix16_value(s, true) {
        Some(v) => if i32::MIN <= v <= i32::MAX {
            Some(v as i32)
        } else {
            None
        },
        None => None,
    }
}

/// The `u32` a hexadecimal string denotes, if it is well formed and in range.
pub open spec fn hex_u32(s: Seq<char>) -> Option<u32> {
    match radix16_value(s, false) {
        Some(v) => if 0 <= v <= u32::MAX {
            Some(v as u32)
        } else {
            None
        },
        None => None,
    }
}

/// Whether the string starts with a `0x` or `0X` prefix.
pub open spec fn has_hex_prefix(s: Seq<char>) -> bool {
    s.len() >= 2 && s[0] == '0' && (s[1] == 'x' || s[1] == 'X')
}

/// The compact target a block's `bits` string denotes: an unprefixed hex `u32`.
pub open spec fn unprefixed_hex_u32(s: Seq<char>) -> Option<u32> {
    if has_hex_prefix(s) {
        None
    } else {
        hex_u32(s)
    }
}

} // verus!
