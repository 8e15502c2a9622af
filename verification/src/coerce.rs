//! Per-field coercions from raw column text to typed values.
//!
//! Boolean and mandatory numeric columns fail the whole run on bad input;
//! optional numeric columns fall back to an absent value; keyword columns
//! never fail.

use vstd::prelude::*;
use crate::chars::{chars_of, string_from_chars};
use crate::errors::{ConvertError, ErrorModel};
use crate::numbers::{
    all_digits, check_decimal, is_decimal, is_digit, num_val, parse_int, spec_parse_int,
};
use crate::tokens::{bool_token, keywords_of, spec_bool_token, split_keywords};

verus! {

/// Best-effort signed coercion: the value of well-formed integer text
/// when it lies within `i32` bounds, absent otherwise.
pub open spec fn spec_opt_i32(s: Seq<char>) -> Option<int> {
    match spec_parse_int(s) {
        Some(n) => if i32::MIN <= n <= i32::MAX {
            Some(n)
        } else {
            None
        },
        None => None,
    }
}

/// Best-effort unsigned coercion: the value of digit text (a plus sign
/// allowed) within `u32` bounds, absent otherwise.
pub open spec fn spec_opt_u32(s: Seq<char>) -> Option<int> {
    let mag = if s.len() > 0 && s[0] == '+' {
        s.skip(1)
    } else {
        s
    };
    if mag.len() > 0 && all_digits(mag) && num_val(mag) <= u32::MAX {
        Some(num_val(mag) as int)
    } else {
        None
    }
}

/// Best-effort decimal coercion: the text itself when it is decimal-number
/// text, absent otherwise.
pub open spec fn spec_opt_decimal(s: Seq<char>) -> Option<Seq<char>> {
    if is_decimal(s) {
        Some(s)
    } else {
        None
    }
}

/// Coerces a boolean column: case-insensitive `yes`/`no` (or `1`/`0`),
/// anything else being a fatal error naming the offending token.
pub fn bool_from_str(s: &str) -> (r: Result<bool, ConvertError>)
    ensures
        spec_bool_token(s@) matches Some(b) ==> r == Ok::<bool, ConvertError>(b),
        spec_bool_token(s@) is None ==> (r matches Err(e) && e@ == ErrorModel::BadBool(s@)),
{
    let v = chars_of(s);
    match bool_token(&v) {
        Some(b) => Ok(b),
        None => Err(ConvertError::BadBool(s.to_owned())),
    }
}

/// Coerces a keywords column into its list of trimmed keywords; never fails.
pub fn vec_string_from_string(s: &str) -> (r: Vec<String>)
    ensures
        r.deep_view() == keywords_of(s@),
{
    let v = chars_of(s);
    let pieces = split_keywords(&v);
    let mut out: Vec<String> = Vec::new();
    let mut i: usize = 0;
    while i < pieces.len()
        invariant
            0 <= i <= pieces@.len(),
            out@.len() == i,
            forall|j: int| 0 <= j < i ==> #[trigger] out@[j]@ == pieces@[j]@,
        decreases pieces@.len() - i,
    {
        out.push(string_from_chars(&pieces[i]));
        i = i + 1;
    }
    proof {
        assert forall|j: int| 0 <= j < out@.len() implies out.deep_view()[j]
            == pieces.deep_view()[j] by {
            assert(out.deep_view()[j] =~= out@[j]@);
            assert(pieces.deep_view()[j] =~= pieces@[j]@);
        }
        assert(out.deep_view() =~~= pieces.deep_view());
    }
    out
}

/// Coerces an optional signed integer column.
pub fn opt_i32_from_str(s: &str) -> (r: Option<i32>)
    ensures
        r is Some <==> spec_opt_i32(s@) is Some,
        r matches Some(n) ==> spec_opt_i32(s@) == Some(n as int),
{
    let v = chars_of(s);
    match parse_int(&v) {
        Some(n) => if i32::MIN as i64 <= n && n <= i32::MAX as i64 {
            Some(n as i32)
        } else {
            None
        },
        None => None,
    }
}

/// Coerces an optional unsigned integer column.
pub fn opt_u32_from_str(s: &str) -> (r: Option<u32>)
    ensures
        r is Some <==> spec_opt_u32(s@) is Some,
        r matches Some(n) ==> spec_opt_u32(s@) == Some(n as int),
{
    let v = chars_of(s);
    if v.len() > 0 && v[0] == '-' {
        proof {
            if spec_opt_u32(s@) is Some {
                let mag = s@;
                assert(is_digit(mag[0]));
            }
        }
        return None;
    }
    match parse_int(&v) {
        Some(n) => {
            proof {
                lemma_uint_matches_int(s@);
            }
            if 0 <= n && n <= u32::MAX as i64 {
                Some(n as u32)
            } else {
                None
            }
        },
        None => {
            proof {
                lemma_uint_matches_int(s@);
                if spec_opt_u32(s@) is Some {
                    assert(spec_parse_int(s@) is Some);
                    assert(spec_parse_int(s@)->0 <= u32::MAX);
                }
            }
            None
        },
    }
}

/// On text without a leading minus sign, the unsigned reading agrees with
/// the signed one.
proof fn lemma_uint_matches_int(s: Seq<char>)
    requires
        !(s.len() > 0 && s[0] == '-'),
    ensures
        spec_opt_u32(s) matches Some(n) ==> spec_parse_int(s) == Some(n),
        spec_parse_int(s) matches Some(n) ==> (0 <= n <= u32::MAX ==> spec_opt_u32(s) == Some(
            n,
        )),
        spec_opt_u32(s) is None ==> (spec_parse_int(s) matches Some(n) ==> !(0 <= n
            <= u32::MAX)),
{
}

/// Coerces a mandatory decimal column: the text is kept verbatim when it is
/// decimal-number text, and anything else is a fatal error.
pub fn decimal_from_str(s: &str) -> (r: Result<String, ConvertError>)
    ensures
        is_decimal(s@) ==> (r matches Ok(t) && t@ == s@),
        !is_decimal(s@) ==> (r matches Err(e) && e@ == ErrorModel::BadNumber(s@)),
{
    let v = chars_of(s);
    if check_decimal(&v) {
        Ok(s.to_owned())
    } else {
        Err(ConvertError::BadNumber(s.to_owned()))
    }
}

/// Coerces an optional decimal column: the text is kept verbatim when it is
/// decimal-number text, absent otherwise.
pub fn opt_decimal_from_str(s: &str) -> (r: Option<String>)
    ensures
        r.deep_view() == spec_opt_decimal(s@),
{
    let v = chars_of(s);
    if check_decimal(&v) {
        Some(s.to_owned())
    } else {
        None
    }
}

} // verus!
