//! Decimal digit sequences: validation, parsing and formatting.
//!
//! Optional integer columns are parsed best-effort and formatted back as
//! plain decimal text; mandatory coordinate columns are only checked for
//! decimal-number syntax, their text being preserved verbatim.

use vstd::prelude::*;

verus! {

/// Whether a character is a decimal digit.
pub open spec fn is_digit(c: char) -> bool {
    '0' <= c && c <= '9'
}

/// A decimal digit's numeric value.
pub open spec fn digit_val(c: char) -> nat {
    (c as nat - '0' as nat) as nat
}

/// The digit character for a value below ten.
pub open spec fn digit_char(d: nat) -> char {
    ((d + '0' as nat) as u32) as char
}

/// Whether every character of `s` is a decimal digit.
pub open spec fn all_digits(s: Seq<char>) -> bool {
    forall|i: int| 0 <= i < s.len() ==> is_digit(s[i])
}

/// The numeric value of a digit sequence, most significant digit first.
pub open spec fn num_val(s: Seq<char>) -> nat
    decreases s.len(),
{
    if s.len() == 0 {
        0
    } else {
        num_val(s.drop_last()) * 10 + digit_val(s.last())
    }
}

/// A digit prefix never exceeds the value of the whole sequence.
proof fn lemma_num_val_prefix(s: Seq<char>, j: int)
    requires
        0 <= j <= s.len(),
    ensures
        num_val(s.take(j)) <= num_val(s),
    decreases s.len() - j,
{
    if j == s.len() {
        assert(s.take(j) =~= s);
    } else {
        assert(s.take(j + 1).drop_last() =~= s.take(j));
        assert(num_val(s.take(j + 1)) == num_val(s.take(j)) * 10 + digit_val(s.take(j + 1).last()));
        assert(num_val(s.take(j)) <= num_val(s.take(j)) * 10) by (nonlinear_arith);
        lemma_num_val_prefix(s, j + 1);
    }
}

fn digit_of(c: char) -> (r: Option<u64>)
    ensures
        r is Some <==> is_digit(c),
        r matches Some(d) ==> d == digit_val(c) && d <= 9,
{
    if '0' <= c && c <= '9' {
        Some(c as u64 - '0' as u64)
    } else {
        None
    }
}

/// Parses the digit run `v[from..]` as an unsigned value, failing on an
/// empty run, a non-digit, or a value above `u64::MAX`.
fn parse_digits(v: &Vec<char>, from: usize) -> (r: Option<u64>)
    requires
        from <= v@.len(),
    ensures
        r is Some <==> (from < v@.len() && all_digits(v@.skip(from as int)) && num_val(
            v@.skip(from as int),
        ) <= u64::MAX),
        r matches Some(n) ==> n == num_val(v@.skip(from as int)),
{
    let ghost s = v@.skip(from as int);
    if from == v.len() {
        return None;
    }
    let mut i: usize = from;
    let mut acc: u64 = 0;
    while i < v.len()
        invariant
            from <= i <= v@.len(),
            s == v@.skip(from as int),
            all_digits(s.take(i - from)),
            acc == num_val(s.take(i - from)),
        decreases v@.len() - i,
    {
        let c = v[i];
        assert(c == s[i - from]);
        match digit_of(c) {
            None => {
                assert(!all_digits(s)) by {
                    assert(!is_digit(s[i - from]));
                }
                return None;
            },
            Some(d) => {
                assert(s.take(i - from + 1).drop_last() =~= s.take(i - from));
                assert(s.take(i - from + 1).last() == s[i - from]);
                if acc > (u64::MAX - d) / 10 {
                    proof {
                        assert(acc * 10 + d > u64::MAX) by (nonlinear_arith)
                            requires
                                acc > (u64::MAX - d) / 10,
                                d <= 9,
                        ;
                        lemma_num_val_prefix(s, i - from + 1);
                        assert(num_val(s) > u64::MAX);
                    }
                    return None;
                }
                assert(acc * 10 + d <= u64::MAX) by (nonlinear_arith)
                    requires
                        acc <= (u64::MAX - d) / 10,
                        d <= 9,
                ;
                acc = acc * 10 + d;
                i = i + 1;
            },
        }
    }
    assert(s.take(i - from) =~= s);
    Some(acc)
}

/// The integer denoted by optional-sign-then-digits text, or `None` where
/// the text is not of that shape.
pub open spec fn spec_parse_int(s: Seq<char>) -> Option<int> {
    let neg = s.len() > 0 && s[0] == '-';
    let mag = if s.len() > 0 && (s[0] == '-' || s[0] == '+') {
        s.skip(1)
    } else {
        s
    };
    if mag.len() > 0 && all_digits(mag) {
        if neg {
            Some(-(num_val(mag) as int))
        } else {
            Some(num_val(mag) as int)
        }
    } else {
        None
    }
}

/// Best-effort signed-integer coercion: the value of the text when it is a
/// well-formed integer within the given bounds, absent otherwise.
pub open spec fn spec_opt_int(s: Seq<char>, lo: int, hi: int) -> Option<int> {
    match spec_parse_int(s) {
        Some(n) => if lo <= n <= hi {
            Some(n)
        } else {
            None
        },
        None => None,
    }
}

/// Parses optional-sign-then-digits text as an `i64` when the value fits.
pub fn parse_int(v: &Vec<char>) -> (r: Option<i64>)
    ensures
        r is Some <==> (spec_parse_int(v@) matches Some(n) && i64::MIN <= n <= i64::MAX),
        r matches Some(n) ==> spec_parse_int(v@) == Some(n as int),
{
    let (neg, from): (bool, usize) = if v.len() > 0 && (v[0] == '-' || v[0] == '+') {
        (v[0] == '-', 1)
    } else {
        (false, 0)
    };
    let ghost mag = if from == 1 {
        v@.skip(1)
    } else {
        v@
    };
    assert(v@.skip(0) =~= v@);
    match parse_digits(v, from) {
        None => {
            assert(spec_parse_int(v@) matches Some(n) ==> !(i64::MIN <= n <= i64::MAX)) by {
                if spec_parse_int(v@) is Some {
                    assert(num_val(mag) > u64::MAX);
                }
            }
            None
        },
        Some(n) => {
            if neg {
                if n > i64::MAX as u64 + 1 {
                    assert(spec_parse_int(v@) == Some(-(n as int)));
                    None
                } else if n == i64::MAX as u64 + 1 {
                    Some(i64::MIN)
                } else {
                    Some(-(n as i64))
                }
            } else {
                if n > i64::MAX as u64 {
                    None
                } else {
                    Some(n as i64)
                }
            }
        },
    }
}

/// The decimal digits of `n`, most significant first, no sign and no
/// leading zero except for `n == 0` itself.
pub open spec fn dec_nat(n: nat) -> Seq<char>
    decreases n,
{
    if n < 10 {
        seq![digit_char(n)]
    } else {
        dec_nat(n / 10) + seq![digit_char(n % 10)]
    }
}

/// The decimal rendering of an integer: a minus sign for negative values,
/// then the digits of the magnitude.
pub open spec fn dec_int(n: int) -> Seq<char> {
    if n < 0 {
        seq!['-'] + dec_nat((-n) as nat)
    } else {
        dec_nat(n as nat)
    }
}

fn digit_to_char(d: u64) -> (c: char)
    requires
        d <= 9,
    ensures
        c == digit_char(d as nat),
{
    (48 + d as u8) as char
}

/// Formats `n` as its decimal digits.
pub fn fmt_u64(n: u64) -> (r: Vec<char>)
    ensures
        r@ == dec_nat(n as nat),
{
    let mut out: Vec<char> = Vec::new();
    let mut m: u64 = n;
    while m >= 10
        invariant
            dec_nat(n as nat) == dec_nat(m as nat) + out@,
        decreases m,
    {
        out.insert(0, digit_to_char(m % 10));
        m = m / 10;
    }
    out.insert(0, digit_to_char(m));
    assert(dec_nat(m as nat) == seq![digit_char(m as nat)]);
    out
}

/// Formats `n` as optionally signed decimal digits.
pub fn fmt_i64(n: i64) -> (r: Vec<char>)
    ensures
        r@ == dec_int(n as int),
{
    if n >= 0 {
        fmt_u64(n as u64)
    } else {
        let mag: u64 = if n == i64::MIN {
            i64::MAX as u64 + 1
        } else {
            (-n) as u64
        };
        let mut out = fmt_u64(mag);
        out.insert(0, '-');
        assert(out@ =~= dec_int(n as int));
        out
    }
}

/// A digit value below ten and its digit character convert back and forth.
proof fn lemma_digit_char(d: nat)
    requires
        d <= 9,
    ensures
        is_digit(digit_char(d)),
        digit_val(digit_char(d)) == d,
        digit_char(d) != '-' && digit_char(d) != '+',
{
    assert(digit_char(d) as nat == d + 48);
}

/// Formatting then parsing gives the value back: the digits of `n` are
/// digits, carry the value `n`, and never start with a sign.
pub proof fn lemma_dec_nat_val(n: nat)
    ensures
        dec_nat(n).len() > 0,
        all_digits(dec_nat(n)),
        num_val(dec_nat(n)) == n,
        dec_nat(n)[0] != '-' && dec_nat(n)[0] != '+',
    decreases n,
{
    if n < 10 {
        lemma_digit_char(n);
        assert(num_val(Seq::<char>::empty()) == 0);
        assert(num_val(dec_nat(n)) == num_val(seq![digit_char(n)]));
        assert(seq![digit_char(n)].drop_last() =~= Seq::<char>::empty());
        assert(seq![digit_char(n)].last() == digit_char(n));
        assert(num_val(seq![digit_char(n)]) == num_val(Seq::<char>::empty()) * 10 + digit_val(
            digit_char(n),
        ));
    } else {
        lemma_dec_nat_val(n / 10);
        lemma_digit_char(n % 10);
        let s = dec_nat(n / 10) + seq![digit_char(n % 10)];
        assert(dec_nat(n) == s);
        assert(s.drop_last() =~= dec_nat(n / 10));
        assert(s.last() == digit_char(n % 10));
        assert(num_val(s) == num_val(dec_nat(n / 10)) * 10 + digit_val(digit_char(n % 10)));
        assert(num_val(s) == (n / 10) * 10 + n % 10);
        assert(forall|i: int|
            0 <= i < s.len() ==> is_digit(
                #[trigger] s[i],
            )) by {
            assert(forall|i: int| 0 <= i < s.len() - 1 ==> s[i] == dec_nat(n / 10)[i]);
        }
    }
}

/// The first position at or after `i` that does not hold a digit.
pub open spec fn skip_digits(s: Seq<char>, i: int) -> int
    decreases s.len() - i when 0 <= i <= s.len()
{
    if i < s.len() && is_digit(s[i]) {
        skip_digits(s, i + 1)
    } else {
        i
    }
}

/// `skip_digits` lands between `i` and the end, right after a digit run.
pub proof fn lemma_skip_digits(s: Seq<char>, i: int)
    requires
        0 <= i <= s.len(),
    ensures
        i <= skip_digits(s, i) <= s.len(),
        forall|k: int| i <= k < skip_digits(s, i) ==> is_digit(s[k]),
        skip_digits(s, i) < s.len() ==> !is_digit(s[skip_digits(s, i)]),
    decreases s.len() - i,
{
    if i < s.len() && is_digit(s[i]) {
        lemma_skip_digits(s, i + 1);
    }
}

/// Whether `s` is decimal-number text: an optional minus sign, an integer
/// part, an optional fractional part and an optional exponent part.
pub open spec fn is_decimal(s: Seq<char>) -> bool {
    let i0: int = if s.len() > 0 && s[0] == '-' {
        1
    } else {
        0
    };
    let i1 = skip_digits(s, i0);
    if i1 == i0 {
        false
    } else {
        let i2: int = if i1 < s.len() && s[i1] == '.' {
            skip_digits(s, i1 + 1)
        } else {
            i1
        };
        if i1 < s.len() && s[i1] == '.' && i2 == i1 + 1 {
            false
        } else {
            if i2 < s.len() && (s[i2] == 'e' || s[i2] == 'E') {
                let i3: int = if i2 + 1 < s.len() && (s[i2 + 1] == '+' || s[i2 + 1] == '-') {
                    i2 + 2
                } else {
                    i2 + 1
                };
                skip_digits(s, i3) == s.len() && skip_digits(s, i3) > i3
            } else {
                i2 == s.len()
            }
        }
    }
}

fn skip_digits_run(v: &Vec<char>, i: usize) -> (r: usize)
    requires
        i <= v@.len(),
    ensures
        r == skip_digits(v@, i as int),
        i <= r <= v@.len(),
{
    let mut j: usize = i;
    while j < v.len() && '0' <= v[j] && v[j] <= '9'
        invariant
            i <= j <= v@.len(),
            skip_digits(v@, i as int) == skip_digits(v@, j as int),
        decreases v@.len() - j,
    {
        j = j + 1;
    }
    proof {
        lemma_skip_digits(v@, j as int);
    }
    j
}

/// Decides whether `v` holds decimal-number text.
pub fn check_decimal(v: &Vec<char>) -> (r: bool)
    ensures
        r == is_decimal(v@),
{
    let i0: usize = if v.len() > 0 && v[0] == '-' {
        1
    } else {
        0
    };
    let i1 = skip_digits_run(v, i0);
    if i1 == i0 {
        return false;
    }
    let has_frac = i1 < v.len() && v[i1] == '.';
    let i2: usize = if has_frac {
        skip_digits_run(v, i1 + 1)
    } else {
        i1
    };
    if has_frac && i2 == i1 + 1 {
        return false;
    }
    if i2 < v.len() && (v[i2] == 'e' || v[i2] == 'E') {
        let i3: usize = if i2 + 1 < v.len() && (v[i2 + 1] == '+' || v[i2 + 1] == '-') {
            i2 + 2
        } else {
            i2 + 1
        };
        let i4 = skip_digits_run(v, i3);
        i4 == v.len() && i4 > i3
    } else {
        i2 == v.len()
    }
}

} // verus!
