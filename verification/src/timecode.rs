//! Timestamp parsing and formatting.
//!
//! All times are integer milliseconds. A timestamp string is either a plain
//! decimal number of seconds (`"7"`, `"6.5"`), or three colon-separated
//! fields. Three fields are disambiguated by the third one: a third field
//! above 59 reads as minutes:seconds:milliseconds, otherwise as
//! hours:minutes:seconds. This heuristic is lossy by design — `1:2:3` always
//! reads as hours:minutes:seconds even when minutes:seconds:milliseconds was
//! meant — and is kept as a documented limitation, not silently repaired.
//!
//! The grammar of one number is `digits* ('.' digits*)?` with at least one
//! digit; fractional digits beyond the third are read but do not contribute
//! (the engine is driven at millisecond precision). Signs, exponents and
//! non-finite values are rejected. Values whose total would not fit the
//! representable millisecond range are rejected as time parse failures.

use vstd::prelude::*;

use crate::errors::PlanError;
use crate::text::find_char;
use crate::text::lemma_find_char_range;
use crate::text::split_char;
use crate::text::split_str;

verus! {

/// Largest accepted time value: one timestamp may not exceed this many
/// milliseconds, so that whole timelines stay far from the integer limit.
pub const MAX_TIME_MS: u64 = 1_000_000_000_000;

/// Largest integer value accepted for one number's whole part.
pub const MAX_FIELD_VAL: u64 = 1_000_000_000_000;

/// Largest milli-unit value one number can parse to:
/// `MAX_FIELD_VAL` thousandths plus a 999 fraction.
pub const MAX_MU: u64 = 1_000_000_000_000_999;

pub open spec fn is_digit(c: char) -> bool {
    48 <= c as u32 && c as u32 <= 57
}

pub open spec fn digit_val(c: char) -> int {
    c as u32 - 48
}

pub open spec fn all_digits(s: Seq<char>) -> bool {
    forall|i: int| 0 <= i < s.len() ==> is_digit(#[trigger] s[i])
}

/// Value of a digit string read in base ten; 0 for the empty string.
pub open spec fn digits_val(s: Seq<char>) -> int
    decreases s.len(),
{
    if s.len() == 0 {
        0
    } else {
        digits_val(s.drop_last()) * 10 + digit_val(s.last())
    }
}

/// Milli-units contributed by a fraction-digit string: only the first three
/// digits carry weight.
pub open spec fn frac_mu(s: Seq<char>) -> int {
    (if s.len() >= 1 {
        100 * digit_val(s[0])
    } else {
        0
    }) + (if s.len() >= 2 {
        10 * digit_val(s[1])
    } else {
        0
    }) + (if s.len() >= 3 {
        digit_val(s[2])
    } else {
        0
    })
}

/// Value of one number token in milli-units (thousandths of its unit), or
/// `None` when the token is not a number of the accepted grammar.
pub open spec fn number_mu(s: Seq<char>) -> Option<int> {
    match find_char(s, '.') {
        None => if s.len() > 0 && all_digits(s) {
            Some(1000 * digits_val(s))
        } else {
            None
        },
        Some(i) => {
            let ipart = s.take(i);
            let fpart = s.skip(i + 1);
            if all_digits(ipart) && all_digits(fpart) && ipart.len() + fpart.len() > 0 {
                Some(1000 * digits_val(ipart) + frac_mu(fpart))
            } else {
                None
            }
        },
    }
}

/// Milliseconds denoted by three colon-separated fields, given each field's
/// milli-unit value: minutes:seconds:milliseconds when the third field
/// exceeds 59, hours:minutes:seconds otherwise.
pub open spec fn three_field_ms(f1: Seq<char>, f2: Seq<char>, f3: Seq<char>) -> Option<int> {
    match (number_mu(f1), number_mu(f2), number_mu(f3)) {
        (Some(m1), Some(m2), Some(m3)) => if m3 > 59000 {
            Some(m1 * 60 + m2 + m3 / 1000)
        } else {
            Some(m1 * 3600 + m2 * 60 + m3)
        },
        _ => None,
    }
}

/// Milliseconds denoted by a timestamp string, or `None` when malformed.
pub open spec fn time_ms(s: Seq<char>) -> Option<int> {
    let parts = split_char(s, ':');
    if parts.len() == 3 {
        three_field_ms(parts[0], parts[1], parts[2])
    } else if parts.len() == 1 {
        number_mu(s)
    } else {
        None
    }
}

pub proof fn lemma_digits_val_nonneg(s: Seq<char>)
    requires
        all_digits(s),
    ensures
        digits_val(s) >= 0,
    decreases s.len(),
{
    if s.len() > 0 {
        let t = s.drop_last();
        assert forall|j: int| 0 <= j < t.len() implies is_digit(#[trigger] t[j]) by {
            assert(t[j] == s[j]);
        }
        lemma_digits_val_nonneg(t);
        assert(is_digit(s.last()));
    }
}

/// A digit string's value only grows as more digits are read.
pub proof fn lemma_digits_val_prefix(s: Seq<char>, i: int)
    requires
        all_digits(s),
        0 <= i <= s.len(),
    ensures
        digits_val(s.take(i)) <= digits_val(s),
    decreases s.len() - i,
{
    if i == s.len() {
        assert(s.take(i) =~= s);
    } else {
        let p = s.take(i);
        let q = s.take(i + 1);
        assert(q.drop_last() =~= p);
        assert(q.last() == s[i]);
        assert forall|j: int| 0 <= j < p.len() implies is_digit(#[trigger] p[j]) by {
            assert(p[j] == s[j]);
        }
        lemma_digits_val_nonneg(p);
        assert(is_digit(s[i]));
        assert(digits_val(q) == digits_val(p) * 10 + digit_val(s[i]));
        lemma_digits_val_prefix(s, i + 1);
    }
}

pub proof fn lemma_number_mu_nonneg(s: Seq<char>)
    ensures
        match number_mu(s) {
            Some(m) => m >= 0,
            None => true,
        },
{
    lemma_find_char_range(s, '.');
    match find_char(s, '.') {
        None => {
            if s.len() > 0 && all_digits(s) {
                lemma_digits_val_nonneg(s);
            }
        },
        Some(i) => {
            let ipart = s.take(i);
            let fpart = s.skip(i + 1);
            if all_digits(ipart) && all_digits(fpart) && ipart.len() + fpart.len() > 0 {
                lemma_digits_val_nonneg(ipart);
                assert(frac_mu(fpart) >= 0);
            }
        },
    }
}

enum NumParse {
    Val(u64),
    Invalid,
    TooBig,
}

fn scan_digits(s: &str) -> (r: NumParse)
    ensures
        match r {
            NumParse::Val(v) => all_digits(s@) && digits_val(s@) == v as int && v
                <= MAX_FIELD_VAL,
            NumParse::Invalid => !all_digits(s@),
            NumParse::TooBig => all_digits(s@) && digits_val(s@) > MAX_FIELD_VAL as int,
        },
{
    let n = s.unicode_len();
    let mut acc: u64 = 0;
    let mut i: usize = 0;
    proof {
        assert(s@.take(0) =~= Seq::<char>::empty());
    }
    while i < n
        invariant
            i <= n,
            n == s@.len(),
            all_digits(s@.take(i as int)),
            acc as int == digits_val(s@.take(i as int)),
            acc <= MAX_FIELD_VAL,
        decreases n - i,
    {
        let c = s.get_char(i);
        let u = c as u32;
        proof {
            assert(s@.take(i as int + 1).drop_last() =~= s@.take(i as int));
            assert(s@.take(i as int + 1).last() == s@[i as int]);
        }
        if u < 48 || u > 57 {
            return NumParse::Invalid;
        }
        let d = (u - 48) as u64;
        if acc > (MAX_FIELD_VAL - d) / 10 {
            proof {
                assert(acc * 10 + d > MAX_FIELD_VAL);
                assert(digits_val(s@.take(i as int + 1)) > MAX_FIELD_VAL as int);
            }
            let mut k: usize = i + 1;
            while k < n
                invariant
                    i + 1 <= k <= n,
                    n == s@.len(),
                    all_digits(s@.take(k as int)),
                    digits_val(s@.take(i as int + 1)) > MAX_FIELD_VAL as int,
                decreases n - k,
            {
                let c2 = s.get_char(k);
                let u2 = c2 as u32;
                proof {
                    assert(s@.take(k as int + 1).drop_last() =~= s@.take(k as int));
                    assert(s@.take(k as int + 1).last() == s@[k as int]);
                }
                if u2 < 48 || u2 > 57 {
                    return NumParse::Invalid;
                }
                k += 1;
            }
            proof {
                assert(s@.take(n as int) =~= s@);
                lemma_digits_val_prefix(s@, i as int + 1);
            }
            return NumParse::TooBig;
        }
        acc = acc * 10 + d;
        i += 1;
    }
    proof {
        assert(s@.take(n as int) =~= s@);
    }
    NumParse::Val(acc)
}

fn scan_frac(s: &str) -> (r: Option<u64>)
    ensures
        match r {
            Some(v) => all_digits(s@) && v as int == frac_mu(s@) && v <= 999,
            None => !all_digits(s@),
        },
{
    let n = s.unicode_len();
    let mut acc: u64 = 0;
    let mut i: usize = 0;
    proof {
        assert(s@.take(0) =~= Seq::<char>::empty());
    }
    while i < n
        invariant
            i <= n,
            n == s@.len(),
            all_digits(s@.take(i as int)),
            acc as int == frac_mu(s@.take(i as int)),
            acc <= 999,
        decreases n - i,
    {
        let c = s.get_char(i);
        let u = c as u32;
        proof {
            let t = s@.take(i as int + 1);
            assert(t.len() == i + 1);
            assert forall|j: int| 0 <= j < i + 1 implies t[j] == s@[j] by {}
            assert(s@.take(i as int + 1).drop_last() =~= s@.take(i as int));
        }
        if u < 48 || u > 57 {
            return None;
        }
        let d = (u - 48) as u64;
        if i == 0 {
            acc = acc + 100 * d;
        } else if i == 1 {
            acc = acc + 10 * d;
        } else if i == 2 {
            acc = acc + d;
        }
        proof {
            let t = s@.take(i as int + 1);
            let p = s@.take(i as int);
            assert forall|j: int| 0 <= j < i implies p[j] == t[j] by {}
            assert(acc as int == frac_mu(t));
        }
        i += 1;
    }
    proof {
        assert(s@.take(n as int) =~= s@);
    }
    Some(acc)
}

fn find_char_str(s: &str, c: char) -> (r: Option<usize>)
    ensures
        match r {
            Some(i) => find_char(s@, c) == Some(i as int),
            None => find_char(s@, c) is None,
        },
{
    let n = s.unicode_len();
    let mut i: usize = 0;
    while i < n
        invariant
            i <= n,
            n == s@.len(),
            forall|j: int| 0 <= j < i ==> s@[j] != c,
        decreases n - i,
    {
        if s.get_char(i) == c {
            proof {
                crate::text::lemma_find_char_at(s@, c, i as int);
            }
            return Some(i);
        }
        i += 1;
    }
    proof {
        crate::text::lemma_find_char_none(s@, c);
    }
    None
}

fn parse_number_mu(s: &str) -> (r: NumParse)
    ensures
        match r {
            NumParse::Val(v) => number_mu(s@) == Some(v as int) && v <= MAX_MU,
            NumParse::Invalid => number_mu(s@) is None,
            NumParse::TooBig => match number_mu(s@) {
                Some(m) => m > MAX_MU as int,
                None => false,
            },
        },
{
    let n = s.unicode_len();
    match find_char_str(s, '.') {
        None => {
            if n == 0 {
                return NumParse::Invalid;
            }
            match scan_digits(s) {
                NumParse::Val(v) => NumParse::Val(v * 1000),
                NumParse::Invalid => NumParse::Invalid,
                NumParse::TooBig => NumParse::TooBig,
            }
        },
        Some(d) => {
            proof {
                lemma_find_char_range(s@, '.');
            }
            let ipart = s.substring_char(0, d);
            let fpart = s.substring_char(d + 1, n);
            proof {
                assert(ipart@ =~= s@.take(d as int));
                assert(fpart@ =~= s@.skip(d as int + 1));
            }
            if ipart.unicode_len() == 0 && fpart.unicode_len() == 0 {
                return NumParse::Invalid;
            }
            match scan_frac(fpart) {
                None => NumParse::Invalid,
                Some(fv) => match scan_digits(ipart) {
                    NumParse::Invalid => NumParse::Invalid,
                    NumParse::TooBig => {
                        proof {
                            assert(frac_mu(fpart@) >= 0);
                        }
                        NumParse::TooBig
                    },
                    NumParse::Val(v) => NumParse::Val(v * 1000 + fv),
                },
            }
        },
    }
}

/// Any field above the milli-unit cap forces the whole timestamp above the
/// millisecond cap, whichever way the third field is read.
proof fn lemma_big_field_big_time(f1: Seq<char>, f2: Seq<char>, f3: Seq<char>)
    requires
        three_field_ms(f1, f2, f3) is Some,
        (match number_mu(f1) {
            Some(m) => m > MAX_MU as int,
            None => false,
        }) || (match number_mu(f2) {
            Some(m) => m > MAX_MU as int,
            None => false,
        }) || (match number_mu(f3) {
            Some(m) => m > MAX_MU as int,
            None => false,
        }),
    ensures
        match three_field_ms(f1, f2, f3) {
            Some(m) => m > MAX_TIME_MS as int,
            None => false,
        },
{
    lemma_number_mu_nonneg(f1);
    lemma_number_mu_nonneg(f2);
    lemma_number_mu_nonneg(f3);
    let m1 = number_mu(f1)->Some_0;
    let m2 = number_mu(f2)->Some_0;
    let m3 = number_mu(f3)->Some_0;
    if m3 > 59000 {
        if m3 > MAX_MU as int {
            assert(m3 >= MAX_MU as int + 1);
            vstd::arithmetic::div_mod::lemma_div_is_ordered(
                1_000_000_000_001_000,
                m3,
                1000,
            );
            assert(m3 / 1000 >= 1_000_000_000_001int);
        }
    }
}

/// Parses a timestamp string to milliseconds.
///
/// Succeeds exactly on the strings the grammar accepts whose value fits the
/// cap; every failure is a `TimeParse` error.
pub fn parse_time_ms(s: &str) -> (r: Result<u64, PlanError>)
    ensures
        match r {
            Ok(v) => v <= MAX_TIME_MS && time_ms(s@) == Some(v as int),
            Err(e) => e is TimeParse && (match time_ms(s@) {
                Some(m) => m > MAX_TIME_MS as int,
                None => true,
            }),
        },
{
    let parts = split_str(s, ':');
    let ghost sp = split_char(s@, ':');
    proof {
        assert(parts@.map_values(|t: String| t@) == sp);
    }
    if parts.len() == 3 {
        proof {
            assert(sp[0] == parts@.map_values(|t: String| t@)[0]);
            assert(sp[1] == parts@.map_values(|t: String| t@)[1]);
            assert(sp[2] == parts@.map_values(|t: String| t@)[2]);
        }
        let r1 = parse_number_mu(parts[0].as_str());
        let r2 = parse_number_mu(parts[1].as_str());
        let r3 = parse_number_mu(parts[2].as_str());
        match (r1, r2, r3) {
            (NumParse::Val(v1), NumParse::Val(v2), NumParse::Val(v3)) => {
                let ms: u64 = if v3 > 59_000 {
                    v1 * 60 + v2 + v3 / 1000
                } else {
                    v1 * 3600 + v2 * 60 + v3
                };
                if ms > MAX_TIME_MS {
                    Err(PlanError::TimeParse)
                } else {
                    Ok(ms)
                }
            },
            (NumParse::Invalid, _, _) | (_, NumParse::Invalid, _) | (_, _, NumParse::Invalid) => {
                Err(PlanError::TimeParse)
            },
            _ => {
                proof {
                    lemma_big_field_big_time(sp[0], sp[1], sp[2]);
                }
                Err(PlanError::TimeParse)
            },
        }
    } else if parts.len() == 1 {
        match parse_number_mu(s) {
            NumParse::Val(v) => {
                if v > MAX_TIME_MS {
                    Err(PlanError::TimeParse)
                } else {
                    Ok(v)
                }
            },
            NumParse::Invalid => Err(PlanError::TimeParse),
            NumParse::TooBig => Err(PlanError::TimeParse),
        }
    } else {
        Err(PlanError::TimeParse)
    }
}

/// The decimal digits of `n`, most significant first.
pub open spec fn digit_char(d: int) -> char {
    if d == 0 {
        '0'
    } else if d == 1 {
        '1'
    } else if d == 2 {
        '2'
    } else if d == 3 {
        '3'
    } else if d == 4 {
        '4'
    } else if d == 5 {
        '5'
    } else if d == 6 {
        '6'
    } else if d == 7 {
        '7'
    } else if d == 8 {
        '8'
    } else {
        '9'
    }
}

pub open spec fn spec_u64_str(n: int) -> Seq<char>
    decreases n,
{
    if n < 10 {
        seq![digit_char(n)]
    } else {
        spec_u64_str(n / 10).push(digit_char(n % 10))
    }
}

spec fn rev_digit_chars(ds: Seq<u64>) -> Seq<char> {
    Seq::new(ds.len(), |i: int| digit_char(ds[ds.len() - 1 - i] as int))
}

fn digit_str(d: u64) -> (r: &'static str)
    requires
        d < 10,
    ensures
        r@ == seq![digit_char(d as int)],
{
    let r: &'static str = if d == 0 {
        "0"
    } else if d == 1 {
        "1"
    } else if d == 2 {
        "2"
    } else if d == 3 {
        "3"
    } else if d == 4 {
        "4"
    } else if d == 5 {
        "5"
    } else if d == 6 {
        "6"
    } else if d == 7 {
        "7"
    } else if d == 8 {
        "8"
    } else {
        "9"
    };
    proof {
        reveal_strlit("0");
        reveal_strlit("1");
        reveal_strlit("2");
        reveal_strlit("3");
        reveal_strlit("4");
        reveal_strlit("5");
        reveal_strlit("6");
        reveal_strlit("7");
        reveal_strlit("8");
        reveal_strlit("9");
        assert(r@ =~= seq![digit_char(d as int)]);
    }
    r
}

/// Writes `n` in decimal.
pub fn u64_to_string(n: u64) -> (r: String)
    ensures
        r@ == spec_u64_str(n as int),
{
    let mut digits: Vec<u64> = Vec::new();
    let mut m: u64 = n;
    digits.push(m % 10);
    m = m / 10;
    proof {
        assert(rev_digit_chars(digits@) =~= seq![digit_char((n % 10) as int)]);
        if m > 0 {
            assert(spec_u64_str(n as int) == spec_u64_str(m as int).push(
                digit_char((n % 10) as int),
            ));
            assert(spec_u64_str(m as int) + rev_digit_chars(digits@) =~= spec_u64_str(
                n as int,
            ));
        }
    }
    while m > 0
        invariant
            forall|k: int| 0 <= k < digits@.len() ==> digits@[k] < 10,
            digits@.len() >= 1,
            m == 0 ==> rev_digit_chars(digits@) == spec_u64_str(n as int),
            m > 0 ==> spec_u64_str(m as int) + rev_digit_chars(digits@) == spec_u64_str(
                n as int,
            ),
        decreases m,
    {
        let ghost old_digits = digits@;
        let d = m % 10;
        digits.push(d);
        let m2 = m / 10;
        proof {
            assert(rev_digit_chars(digits@) =~= seq![digit_char(d as int)] + rev_digit_chars(
                old_digits,
            ));
            if m2 > 0 {
                assert(spec_u64_str(m as int) == spec_u64_str(m2 as int).push(
                    digit_char(d as int),
                ));
                assert(spec_u64_str(m2 as int) + rev_digit_chars(digits@) =~= spec_u64_str(
                    n as int,
                ));
            } else {
                assert(spec_u64_str(m as int) == seq![digit_char(d as int)]);
                assert(rev_digit_chars(digits@) =~= spec_u64_str(n as int));
            }
        }
        m = m2;
    }
    let mut out = String::new();
    let nd = digits.len();
    let mut i: usize = nd;
    proof {
        assert(out@ =~= rev_digit_chars(digits@).take(0));
    }
    while i > 0
        invariant
            i <= nd,
            nd == digits@.len(),
            forall|k: int| 0 <= k < digits@.len() ==> digits@[k] < 10,
            rev_digit_chars(digits@) == spec_u64_str(n as int),
            out@ == rev_digit_chars(digits@).take(nd - i),
        decreases i,
    {
        i -= 1;
        out.append(digit_str(digits[i]));
        proof {
            let rev = rev_digit_chars(digits@);
            assert(rev[nd - i - 1] == digit_char(digits@[i as int] as int));
            assert(out@ =~= rev.take(nd - i));
        }
    }
    proof {
        assert(rev_digit_chars(digits@).take(nd as int) =~= rev_digit_chars(digits@));
    }
    out
}

/// Decimal seconds with exactly three fractional digits, as the engine's
/// command lines want times written.
pub open spec fn spec_ms_fixed3(ms: int) -> Seq<char> {
    spec_u64_str(ms / 1000) + seq![
        '.',
        digit_char((ms / 100) % 10),
        digit_char((ms / 10) % 10),
        digit_char(ms % 10),
    ]
}

pub fn format_ms_fixed3(ms: u64) -> (r: String)
    ensures
        r@ == spec_ms_fixed3(ms as int),
{
    let mut out = u64_to_string(ms / 1000);
    out.append(".");
    out.append(digit_str((ms / 100) % 10));
    out.append(digit_str((ms / 10) % 10));
    out.append(digit_str(ms % 10));
    proof {
        reveal_strlit(".");
        assert(out@ =~= spec_ms_fixed3(ms as int));
    }
    out
}

/// Decimal seconds with trailing fractional zeros trimmed, and no point at
/// all for whole seconds.
pub open spec fn spec_milli_trimmed(ms: int) -> Seq<char> {
    if ms % 1000 == 0 {
        spec_u64_str(ms / 1000)
    } else if ms % 100 == 0 {
        spec_u64_str(ms / 1000) + seq!['.', digit_char((ms / 100) % 10)]
    } else if ms % 10 == 0 {
        spec_u64_str(ms / 1000) + seq!['.', digit_char((ms / 100) % 10), digit_char((ms / 10) % 10)]
    } else {
        spec_ms_fixed3(ms)
    }
}

pub fn format_milli_trimmed(ms: u64) -> (r: String)
    ensures
        r@ == spec_milli_trimmed(ms as int),
{
    if ms % 1000 == 0 {
        u64_to_string(ms / 1000)
    } else if ms % 100 == 0 {
        let mut out = u64_to_string(ms / 1000);
        out.append(".");
        out.append(digit_str((ms / 100) % 10));
        proof {
            reveal_strlit(".");
            assert(out@ =~= spec_milli_trimmed(ms as int));
        }
        out
    } else if ms % 10 == 0 {
        let mut out = u64_to_string(ms / 1000);
        out.append(".");
        out.append(digit_str((ms / 100) % 10));
        out.append(digit_str((ms / 10) % 10));
        proof {
            reveal_strlit(".");
            assert(out@ =~= spec_milli_trimmed(ms as int));
        }
        out
    } else {
        format_ms_fixed3(ms)
    }
}

/// A segment index written with at least four digits, zero-padded.
pub open spec fn spec_index4(i: int) -> Seq<char> {
    if i > 9999 {
        spec_u64_str(i)
    } else {
        seq![
            digit_char(i / 1000 % 10),
            digit_char(i / 100 % 10),
            digit_char(i / 10 % 10),
            digit_char(i % 10),
        ]
    }
}

pub fn format_index4(i: u64) -> (r: String)
    ensures
        r@ == spec_index4(i as int),
{
    if i > 9999 {
        u64_to_string(i)
    } else {
        let mut out = String::new();
        out.append(digit_str(i / 1000 % 10));
        out.append(digit_str(i / 100 % 10));
        out.append(digit_str(i / 10 % 10));
        out.append(digit_str(i % 10));
        proof {
            assert(out@ =~= spec_index4(i as int));
        }
        out
    }
}

} // verus!
