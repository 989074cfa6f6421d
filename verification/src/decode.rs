//! Decoding of one telemetry line.
//!
//! A line is a single record of the fixed shape
//!
//! ```text
//! {"dt": <n>, "accel": [x,y,z], "gyro": [x,y,z], "mag": [x,y,z], "state": [[w,x,y,z,_,_,_]]}
//! ```
//!
//! with optional blanks between tokens and numbers written as decimal
//! literals (optional sign, digits, optional fraction, optional
//! exponent). Anything else — a missing or misnamed field, a malformed
//! number, trailing text — makes the whole line malformed; malformed
//! lines are dropped by the callers, never reported.
//!
//! The grammar is defined by the `p_*` specification functions below;
//! each executable step is proved to return exactly what its
//! specification says.

use vstd::prelude::*;
use crate::num::{Num, MANT_LIMIT, EXP_LIMIT, pow10, lemma_pow10_val, lemma_pow10_mono};
use crate::record::{Sample, V3, RefState};

verus! {

/// Blanks allowed between tokens: space, tab, carriage return.
pub open spec fn is_ws(c: u8) -> bool {
    c == 32 || c == 9 || c == 13
}

pub open spec fn is_digit(c: u8) -> bool {
    48 <= c <= 57
}

/// The first index at or after `i` holding a non-blank byte.
pub open spec fn sws(s: Seq<u8>, i: int) -> int
    decreases s.len() - i,
{
    if 0 <= i < s.len() && is_ws(s[i]) {
        sws(s, i + 1)
    } else {
        i
    }
}

pub proof fn lemma_sws(s: Seq<u8>, i: int)
    requires
        0 <= i <= s.len(),
    ensures
        i <= sws(s, i) <= s.len(),
    decreases s.len() - i,
{
    if i < s.len() && is_ws(s[i]) {
        lemma_sws(s, i + 1);
    }
}

/// The first index at or after `i` holding a non-digit byte.
pub open spec fn digits_end(s: Seq<u8>, i: int) -> int
    decreases s.len() - i,
{
    if 0 <= i < s.len() && is_digit(s[i]) {
        digits_end(s, i + 1)
    } else {
        i
    }
}

pub proof fn lemma_digits_end(s: Seq<u8>, i: int)
    requires
        0 <= i <= s.len(),
    ensures
        i <= digits_end(s, i) <= s.len(),
        forall|k: int| i <= k < digits_end(s, i) ==> is_digit(#[trigger] s[k]),
    decreases s.len() - i,
{
    if i < s.len() && is_digit(s[i]) {
        lemma_digits_end(s, i + 1);
    }
}

/// Skips blanks, then expects the single byte `c`; the position after it.
pub open spec fn p_byte(s: Seq<u8>, i: int, c: u8) -> Option<int> {
    let j = sws(s, i);
    if j < s.len() && s[j] == c {
        Some(j + 1)
    } else {
        None
    }
}

/// Skips blanks, then expects the exact bytes `k`; the position after them.
pub open spec fn p_lit(s: Seq<u8>, i: int, k: Seq<u8>) -> Option<int> {
    let j = sws(s, i);
    if j + k.len() <= s.len() && s.subrange(j, j + k.len()) == k {
        Some(j + k.len())
    } else {
        None
    }
}

fn ws_byte(c: u8) -> (b: bool)
    ensures
        b == is_ws(c),
{
    c == 32 || c == 9 || c == 13
}

fn digit_byte(c: u8) -> (b: bool)
    ensures
        b == is_digit(c),
{
    48 <= c && c <= 57
}

fn skip_ws(s: &[u8], i: usize) -> (r: usize)
    requires
        i <= s@.len(),
    ensures
        r == sws(s@, i as int),
        i <= r <= s@.len(),
{
    let mut j = i;
    while j < s.len() && ws_byte(s[j])
        invariant
            i <= j <= s@.len(),
            sws(s@, i as int) == sws(s@, j as int),
        decreases s@.len() - j,
    {
        j = j + 1;
    }
    j
}

fn scan_digits_end(s: &[u8], i: usize) -> (r: usize)
    requires
        i <= s@.len(),
    ensures
        r == digits_end(s@, i as int),
        i <= r <= s@.len(),
{
    let mut j = i;
    while j < s.len() && digit_byte(s[j])
        invariant
            i <= j <= s@.len(),
            digits_end(s@, i as int) == digits_end(s@, j as int),
        decreases s@.len() - j,
    {
        j = j + 1;
    }
    j
}

fn expect_byte(s: &[u8], i: usize, c: u8) -> (r: Option<usize>)
    requires
        i <= s@.len(),
    ensures
        match p_byte(s@, i as int, c) {
            Some(j) => r == Some(j as usize) && i <= j <= s@.len(),
            None => r is None,
        },
{
    proof {
        lemma_sws(s@, i as int);
    }
    let j = skip_ws(s, i);
    if j < s.len() && s[j] == c {
        Some(j + 1)
    } else {
        None
    }
}

fn expect_lit(s: &[u8], i: usize, k: &[u8]) -> (r: Option<usize>)
    requires
        i <= s@.len(),
    ensures
        match p_lit(s@, i as int, k@) {
            Some(j) => r == Some(j as usize) && i <= j <= s@.len(),
            None => r is None,
        },
{
    proof {
        lemma_sws(s@, i as int);
    }
    let j = skip_ws(s, i);
    if s.len() - j < k.len() {
        proof {
            assert(p_lit(s@, i as int, k@) is None) by {
                if j + k@.len() <= s@.len() {
                }
            }
        }
        return None;
    }
    let n = s.len();
    let mut t: usize = 0;
    while t < k.len()
        invariant
            0 <= t <= k@.len(),
            n == s@.len(),
            j + k@.len() <= n,
            j == sws(s@, i as int),
            i <= j <= s@.len(),
            forall|q: int| 0 <= q < t ==> s@[j + q] == k@[q],
        decreases k@.len() - t,
    {
        if s[j + t] != k[t] {
            proof {
                assert(s@.subrange(j as int, j + k@.len())[t as int] == s@[j + t]);
                assert(s@.subrange(j as int, j + k@.len()) != k@);
            }
            return None;
        }
        t = t + 1;
    }
    proof {
        assert(s@.subrange(j as int, j + k@.len()) =~= k@);
    }
    Some(j + k.len())
}

/// Folds the digit run `s[i..j)` into a mantissa of at most 18
/// significant digits. The state is the mantissa `m` so far, the count
/// `t` of significant digits taken, and the count `d` of significant
/// digits dropped past the budget; leading zeros are skipped.
pub open spec fn scan_digits(s: Seq<u8>, i: int, j: int, m: u128, t: u32, d: int) -> (u128, u32, int)
    decreases j - i,
{
    if i < j {
        if t == 0 && s[i] == 48 {
            scan_digits(s, i + 1, j, m, t, d)
        } else if t < 18 {
            scan_digits(s, i + 1, j, (m * 10 + (s[i] - 48)) as u128, (t + 1) as u32, d)
        } else {
            scan_digits(s, i + 1, j, m, t, d + 1)
        }
    } else {
        (m, t, d)
    }
}

/// Folds the digit run `s[i..j)` into an exponent count, saturating
/// just above `2 * EXP_LIMIT` so an oversized exponent stays visible.
pub open spec fn scan_expval(s: Seq<u8>, i: int, j: int, v: int) -> int
    decreases j - i,
{
    if i < j {
        let nv = if v * 10 + (s[i] - 48) > 2 * EXP_LIMIT {
            2 * EXP_LIMIT + 1
        } else {
            v * 10 + (s[i] - 48)
        };
        scan_expval(s, i + 1, j, nv)
    } else {
        v
    }
}

fn scan_mantissa(s: &[u8], i: usize, j: usize, m0: u128, t0: u32, d0: usize) -> (r: (u128, u32, usize))
    requires
        i <= j <= s@.len(),
        forall|k: int| i <= k < j ==> is_digit(#[trigger] s@[k]),
        t0 <= 18,
        m0 < pow10(t0 as nat),
        d0 + (j - i) <= usize::MAX,
    ensures
        (r.0, r.1, r.2 as int) == scan_digits(s@, i as int, j as int, m0, t0, d0 as int),
        r.1 <= 18,
        r.0 < pow10(r.1 as nat),
        r.2 <= d0 + (j - i),
{
    let mut m = m0;
    let mut t = t0;
    let mut d = d0;
    let mut c = i;
    while c < j
        invariant
            i <= c <= j <= s@.len(),
            forall|k: int| i <= k < j ==> is_digit(#[trigger] s@[k]),
            t <= 18,
            m < pow10(t as nat),
            d <= d0 + (c - i),
            d0 + (j - i) <= usize::MAX,
            scan_digits(s@, c as int, j as int, m, t, d as int) == scan_digits(
                s@,
                i as int,
                j as int,
                m0,
                t0,
                d0 as int,
            ),
        decreases j - c,
    {
        let b = s[c];
        if t == 0 && b == 48 {
        } else if t < 18 {
            proof {
                lemma_pow10_val();
                lemma_pow10_mono((t + 1) as nat, 18);
                assert(pow10((t + 1) as nat) == 10 * pow10(t as nat));
            }
            m = m * 10 + (b - 48) as u128;
            t = t + 1;
        } else {
            d = d + 1;
        }
        c = c + 1;
    }
    (m, t, d)
}

fn scan_exp_digits(s: &[u8], i: usize, j: usize) -> (r: i64)
    requires
        i <= j <= s@.len(),
        forall|k: int| i <= k < j ==> is_digit(#[trigger] s@[k]),
    ensures
        r == scan_expval(s@, i as int, j as int, 0),
        0 <= r <= 2 * EXP_LIMIT + 1,
{
    let mut v: i64 = 0;
    let mut c = i;
    while c < j
        invariant
            i <= c <= j <= s@.len(),
            forall|k: int| i <= k < j ==> is_digit(#[trigger] s@[k]),
            0 <= v <= 2 * EXP_LIMIT + 1,
            scan_expval(s@, c as int, j as int, v as int) == scan_expval(s@, i as int, j as int, 0),
        decreases j - c,
    {
        let b = s[c];
        let w = v * 10 + (b - 48) as i64;
        if w > 2 * EXP_LIMIT {
            v = 2 * EXP_LIMIT + 1;
        } else {
            v = w;
        }
        c = c + 1;
    }
    v
}

/// An optional exponent part at `i`: `e` or `E`, an optional sign, and
/// at least one digit; when absent the exponent is zero. An explicit
/// count past `2 * EXP_LIMIT` is malformed.
pub open spec fn p_exp(s: Seq<u8>, i: int) -> Option<(int, int)> {
    if i < s.len() && (s[i] == 101 || s[i] == 69) {
        let neg = i + 1 < s.len() && s[i + 1] == 45;
        let sgn = i + 1 < s.len() && (s[i + 1] == 45 || s[i + 1] == 43);
        let i1 = if sgn {
            i + 2
        } else {
            i + 1
        };
        let j = digits_end(s, i1);
        if j == i1 {
            None
        } else {
            let v = scan_expval(s, i1, j, 0);
            if v > 2 * EXP_LIMIT {
                None
            } else {
                Some((if neg { -v } else { v }, j))
            }
        }
    } else {
        Some((0, i))
    }
}

/// A decimal literal at `i` (no leading blanks): an optional `-`, an
/// integer part with no spurious leading zero, an optional `.` fraction,
/// an optional exponent. Yields the exact number and the position after
/// it. Only the first 18 significant digits are kept — the exponent
/// absorbs a dropped tail — and a combined exponent outside
/// [-EXP_LIMIT, EXP_LIMIT] makes the literal malformed. Zero is
/// normalised to carry no sign.
pub open spec fn p_num(s: Seq<u8>, i: int) -> Option<(Num, int)> {
    let neg = i < s.len() && s[i] == 45;
    let i1 = if neg {
        i + 1
    } else {
        i
    };
    let j1 = digits_end(s, i1);
    if j1 == i1 || (s[i1] == 48 && j1 > i1 + 1) {
        None
    } else {
        let frac = if j1 < s.len() && s[j1] == 46 {
            let fe = digits_end(s, j1 + 1);
            if fe == j1 + 1 {
                None
            } else {
                Some((j1 + 1, fe))
            }
        } else {
            Some((j1, j1))
        };
        match frac {
            None => None,
            Some((f0, f1)) => match p_exp(s, f1) {
                None => None,
                Some((ev, end)) => {
                    let st1 = scan_digits(s, i1, j1, 0, 0, 0);
                    let st = scan_digits(s, f0, f1, st1.0, st1.1, st1.2);
                    let exp = ev - (f1 - f0) + st.2;
                    if st.0 < MANT_LIMIT && -EXP_LIMIT <= exp <= EXP_LIMIT {
                        Some((Num { neg: neg && st.0 != 0, mant: st.0, exp: exp as i64 }, end))
                    } else {
                        None
                    }
                },
            },
        }
    }
}

fn parse_exp(s: &[u8], i: usize) -> (r: Option<(i64, usize)>)
    requires
        i <= s@.len(),
    ensures
        match p_exp(s@, i as int) {
            Some((v, j)) => r == Some((v as i64, j as usize)) && i <= j <= s@.len() && -2 * EXP_LIMIT
                <= v <= 2 * EXP_LIMIT,
            None => r is None,
        },
{
    let n_len = s.len();
    if i < n_len && (s[i] == 101 || s[i] == 69) {
        let sgn = i + 1 < n_len && (s[i + 1] == 45 || s[i + 1] == 43);
        let negx = i + 1 < n_len && s[i + 1] == 45;
        let i1 = if sgn {
            i + 2
        } else {
            i + 1
        };
        let j = scan_digits_end(s, i1);
        proof {
            lemma_digits_end(s@, i1 as int);
        }
        if j == i1 {
            return None;
        }
        let v = scan_exp_digits(s, i1, j);
        if v > 2 * EXP_LIMIT {
            return None;
        }
        Some((if negx { -v } else { v }, j))
    } else {
        Some((0, i))
    }
}

/// Parses a decimal literal at `i`, exactly as [`p_num`] reads it.
fn parse_num(s: &[u8], i: usize) -> (r: Option<(Num, usize)>)
    requires
        i <= s@.len(),
    ensures
        match p_num(s@, i as int) {
            Some((n, j)) => r == Some((n, j as usize)) && i <= j <= s@.len() && n.wf(),
            None => r is None,
        },
{
    let n_len = s.len();
    let neg = i < n_len && s[i] == 45;
    let i1 = if neg {
        i + 1
    } else {
        i
    };
    let j1 = scan_digits_end(s, i1);
    proof {
        lemma_digits_end(s@, i1 as int);
    }
    if j1 == i1 {
        return None;
    }
    if s[i1] == 48 && j1 > i1 + 1 {
        return None;
    }
    let (f0, f1) = if j1 < n_len && s[j1] == 46 {
        let fe = scan_digits_end(s, j1 + 1);
        if fe == j1 + 1 {
            return None;
        }
        (j1 + 1, fe)
    } else {
        (j1, j1)
    };
    proof {
        lemma_digits_end(s@, f0 as int);
        lemma_pow10_val();
    }
    let ex = parse_exp(s, f1);
    let (ev, end) = match ex {
        None => {
            return None;
        },
        Some(p) => p,
    };
    let st1 = scan_mantissa(s, i1, j1, 0, 0, 0);
    let st = scan_mantissa(s, f0, f1, st1.0, st1.1, st1.2);
    let exp_i: i128 = ev as i128 - (f1 - f0) as i128 + st.2 as i128;
    if st.0 < MANT_LIMIT && -(EXP_LIMIT as i128) <= exp_i && exp_i <= EXP_LIMIT as i128 {
        Some((Num { neg: neg && st.0 != 0, mant: st.0, exp: exp_i as i64 }, end))
    } else {
        None
    }
}

/// A number produced by the grammar is well formed.
pub proof fn lemma_p_num_wf(s: Seq<u8>, i: int)
    ensures
        p_num(s, i) matches Some(p) ==> p.0.wf(),
{
}

pub open spec fn key_dt() -> Seq<u8> {
    seq![34u8, 100u8, 116u8, 34u8]
}

pub open spec fn key_accel() -> Seq<u8> {
    seq![34u8, 97u8, 99u8, 99u8, 101u8, 108u8, 34u8]
}

pub open spec fn key_gyro() -> Seq<u8> {
    seq![34u8, 103u8, 121u8, 114u8, 111u8, 34u8]
}

pub open spec fn key_mag() -> Seq<u8> {
    seq![34u8, 109u8, 97u8, 103u8, 34u8]
}

pub open spec fn key_state() -> Seq<u8> {
    seq![34u8, 115u8, 116u8, 97u8, 116u8, 101u8, 34u8]
}

/// A quoted field name followed by a colon.
pub open spec fn p_field(s: Seq<u8>, i: int, k: Seq<u8>) -> Option<int> {
    match p_lit(s, i, k) {
        None => None,
        Some(j) => p_byte(s, j, 58),
    }
}

fn expect_field(s: &[u8], i: usize, k: &[u8]) -> (r: Option<usize>)
    requires
        i <= s@.len(),
    ensures
        match p_field(s@, i as int, k@) {
            Some(j) => r == Some(j as usize) && i <= j <= s@.len(),
            None => r is None,
        },
{
    let _n_len = s.len();
    match expect_lit(s, i, k) {
        None => None,
        Some(j) => expect_byte(s, j, 58),
    }
}

/// A comma, then a number (blanks allowed around both).
pub open spec fn p_comma_num(s: Seq<u8>, i: int) -> Option<(Num, int)> {
    match p_byte(s, i, 44) {
        None => None,
        Some(j) => p_num(s, sws(s, j)),
    }
}

fn parse_comma_num(s: &[u8], i: usize) -> (r: Option<(Num, usize)>)
    requires
        i <= s@.len(),
    ensures
        match p_comma_num(s@, i as int) {
            Some((n, j)) => r == Some((n, j as usize)) && i <= j <= s@.len() && n.wf(),
            None => r is None,
        },
{
    let _n_len = s.len();
    match expect_byte(s, i, 44) {
        None => None,
        Some(j) => {
            proof {
                lemma_sws(s@, j as int);
            }
            let j2 = skip_ws(s, j);
            parse_num(s, j2)
        },
    }
}

/// A bracketed three-component vector.
pub open spec fn p_v3(s: Seq<u8>, i: int) -> Option<(V3, int)> {
    match p_byte(s, i, 91) {
        None => None,
        Some(i1) => match p_num(s, sws(s, i1)) {
            None => None,
            Some((x, i2)) => match p_comma_num(s, i2) {
                None => None,
                Some((y, i3)) => match p_comma_num(s, i3) {
                    None => None,
                    Some((z, i4)) => match p_byte(s, i4, 93) {
                        None => None,
                        Some(i5) => Some((V3 { x, y, z }, i5)),
                    },
                },
            },
        },
    }
}

fn parse_v3(s: &[u8], i: usize) -> (r: Option<(V3, usize)>)
    requires
        i <= s@.len(),
    ensures
        match p_v3(s@, i as int) {
            Some((v, j)) => r == Some((v, j as usize)) && i <= j <= s@.len() && v.wf(),
            None => r is None,
        },
{
    let _n_len = s.len();
    let i1 = match expect_byte(s, i, 91) {
        None => {
            return None;
        },
        Some(p) => p,
    };
    proof {
        lemma_sws(s@, i1 as int);
    }
    let (x, i2) = match parse_num(s, skip_ws(s, i1)) {
        None => {
            return None;
        },
        Some(p) => p,
    };
    let (y, i3) = match parse_comma_num(s, i2) {
        None => {
            return None;
        },
        Some(p) => p,
    };
    let (z, i4) = match parse_comma_num(s, i3) {
        None => {
            return None;
        },
        Some(p) => p,
    };
    match expect_byte(s, i4, 93) {
        None => None,
        Some(i5) => Some((V3 { x, y, z }, i5)),
    }
}

/// The inner seven-number row of the reference state.
pub open spec fn p_state_row(s: Seq<u8>, i: int) -> Option<(RefState, int)> {
    match p_byte(s, i, 91) {
        None => None,
        Some(i1) => match p_num(s, sws(s, i1)) {
            None => None,
            Some((w, i2)) => match p_comma_num(s, i2) {
                None => None,
                Some((x, i3)) => match p_comma_num(s, i3) {
                    None => None,
                    Some((y, i4)) => match p_comma_num(s, i4) {
                        None => None,
                        Some((z, i5)) => match p_comma_num(s, i5) {
                            None => None,
                            Some((e4, i6)) => match p_comma_num(s, i6) {
                                None => None,
                                Some((e5, i7)) => match p_comma_num(s, i7) {
                                    None => None,
                                    Some((e6, i8)) => match p_byte(s, i8, 93) {
                                        None => None,
                                        Some(i9) => Some(
                                            (RefState { w, x, y, z, e4, e5, e6 }, i9),
                                        ),
                                    },
                                },
                            },
                        },
                    },
                },
            },
        },
    }
}

fn parse_state_row(s: &[u8], i: usize) -> (r: Option<(RefState, usize)>)
    requires
        i <= s@.len(),
    ensures
        match p_state_row(s@, i as int) {
            Some((v, j)) => r == Some((v, j as usize)) && i <= j <= s@.len() && v.wf(),
            None => r is None,
        },
{
    let _n_len = s.len();
    let i1 = match expect_byte(s, i, 91) {
        None => {
            return None;
        },
        Some(p) => p,
    };
    proof {
        lemma_sws(s@, i1 as int);
    }
    let (w, i2) = match parse_num(s, skip_ws(s, i1)) {
        None => {
            return None;
        },
        Some(p) => p,
    };
    let (x, i3) = match parse_comma_num(s, i2) {
        None => {
            return None;
        },
        Some(p) => p,
    };
    let (y, i4) = match parse_comma_num(s, i3) {
        None => {
            return None;
        },
        Some(p) => p,
    };
    let (z, i5) = match parse_comma_num(s, i4) {
        None => {
            return None;
        },
        Some(p) => p,
    };
    let (e4, i6) = match parse_comma_num(s, i5) {
        None => {
            return None;
        },
        Some(p) => p,
    };
    let (e5, i7) = match parse_comma_num(s, i6) {
        None => {
            return None;
        },
        Some(p) => p,
    };
    let (e6, i8) = match parse_comma_num(s, i7) {
        None => {
            return None;
        },
        Some(p) => p,
    };
    match expect_byte(s, i8, 93) {
        None => None,
        Some(i9) => Some((RefState { w, x, y, z, e4, e5, e6 }, i9)),
    }
}

/// The whole line: the five fields in order, nothing but blanks after
/// the closing brace, a non-negative `dt`, and a reference orientation
/// of non-zero magnitude.
pub open spec fn p_sample(s: Seq<u8>) -> Option<Sample> {
    match p_byte(s, 0, 123) {
        None => None,
        Some(i1) => match p_field(s, i1, key_dt()) {
            None => None,
            Some(i2) => match p_num(s, sws(s, i2)) {
                None => None,
                Some((dt, i3)) => match p_byte(s, i3, 44) {
                    None => None,
                    Some(i4) => match p_field(s, i4, key_accel()) {
                        None => None,
                        Some(i5) => match p_v3(s, i5) {
                            None => None,
                            Some((accel, i6)) => match p_byte(s, i6, 44) {
                                None => None,
                                Some(i7) => match p_field(s, i7, key_gyro()) {
                                    None => None,
                                    Some(i8) => match p_v3(s, i8) {
                                        None => None,
                                        Some((gyro, i9)) => match p_byte(s, i9, 44) {
                                            None => None,
                                            Some(i10) => match p_field(s, i10, key_mag()) {
                                                None => None,
                                                Some(i11) => match p_v3(s, i11) {
                                                    None => None,
                                                    Some((mag, i12)) => match p_byte(s, i12, 44) {
                                                        None => None,
                                                        Some(i13) => match p_field(
                                                            s,
                                                            i13,
                                                            key_state(),
                                                        ) {
                                                            None => None,
                                                            Some(i14) => match p_byte(s, i14, 91) {
                                                                None => None,
                                                                Some(i15) => match p_state_row(
                                                                    s,
                                                                    i15,
                                                                ) {
                                                                    None => None,
                                                                    Some((state, i16)) => match p_byte(
                                                                        s,
                                                                        i16,
                                                                        93,
                                                                    ) {
                                                                        None => None,
                                                                        Some(i17) => match p_byte(
                                                                            s,
                                                                            i17,
                                                                            125,
                                                                        ) {
                                                                            None => None,
                                                                            Some(i18) => if sws(
                                                                                s,
                                                                                i18,
                                                                            ) == s.len() && !dt.neg
                                                                                && !state.zero_orientation() {
                                                                                Some(
                                                                                    Sample {
                                                                                        dt,
                                                                                        accel,
                                                                                        gyro,
                                                                                        mag,
                                                                                        state,
                                                                                    },
                                                                                )
                                                                            } else {
                                                                                None
                                                                            },
                                                                        },
                                                                    },
                                                                },
                                                            },
                                                        },
                                                    },
                                                },
                                            },
                                        },
                                    },
                                },
                            },
                        },
                    },
                },
            },
        },
    }
}

/// Decodes one line given as raw bytes, exactly as [`p_sample`] reads it.
#[verifier::rlimit(100)]
pub fn decode_bytes(s: &[u8]) -> (r: Option<Sample>)
    ensures
        r == p_sample(s@),
        r matches Some(rec) ==> rec.wf(),
{
    let _n_len = s.len();
    let kd: [u8; 4] = [34u8, 100u8, 116u8, 34u8];
    let ka: [u8; 7] = [34u8, 97u8, 99u8, 99u8, 101u8, 108u8, 34u8];
    let kg: [u8; 6] = [34u8, 103u8, 121u8, 114u8, 111u8, 34u8];
    let km: [u8; 5] = [34u8, 109u8, 97u8, 103u8, 34u8];
    let ks: [u8; 7] = [34u8, 115u8, 116u8, 97u8, 116u8, 101u8, 34u8];
    proof {
        assert(kd@ =~= key_dt());
        assert(ka@ =~= key_accel());
        assert(kg@ =~= key_gyro());
        assert(km@ =~= key_mag());
        assert(ks@ =~= key_state());
    }
    let i1 = match expect_byte(s, 0, 123) {
        None => {
            return None;
        },
        Some(p) => p,
    };
    let i2 = match expect_field(s, i1, kd.as_slice()) {
        None => {
            return None;
        },
        Some(p) => p,
    };
    proof {
        lemma_sws(s@, i2 as int);
    }
    let (dt, i3) = match parse_num(s, skip_ws(s, i2)) {
        None => {
            return None;
        },
        Some(p) => p,
    };
    let i4 = match expect_byte(s, i3, 44) {
        None => {
            return None;
        },
        Some(p) => p,
    };
    let i5 = match expect_field(s, i4, ka.as_slice()) {
        None => {
            return None;
        },
        Some(p) => p,
    };
    let (accel, i6) = match parse_v3(s, i5) {
        None => {
            return None;
        },
        Some(p) => p,
    };
    let i7 = match expect_byte(s, i6, 44) {
        None => {
            return None;
        },
        Some(p) => p,
    };
    let i8 = match expect_field(s, i7, kg.as_slice()) {
        None => {
            return None;
        },
        Some(p) => p,
    };
    let (gyro, i9) = match parse_v3(s, i8) {
        None => {
            return None;
        },
        Some(p) => p,
    };
    let i10 = match expect_byte(s, i9, 44) {
        None => {
            return None;
        },
        Some(p) => p,
    };
    let i11 = match expect_field(s, i10, km.as_slice()) {
        None => {
            return None;
        },
        Some(p) => p,
    };
    let (mag, i12) = match parse_v3(s, i11) {
        None => {
            return None;
        },
        Some(p) => p,
    };
    let i13 = match expect_byte(s, i12, 44) {
        None => {
            return None;
        },
        Some(p) => p,
    };
    let i14 = match expect_field(s, i13, ks.as_slice()) {
        None => {
            return None;
        },
        Some(p) => p,
    };
    let i15 = match expect_byte(s, i14, 91) {
        None => {
            return None;
        },
        Some(p) => p,
    };
    let (state, i16) = match parse_state_row(s, i15) {
        None => {
            return None;
        },
        Some(p) => p,
    };
    let i17 = match expect_byte(s, i16, 93) {
        None => {
            return None;
        },
        Some(p) => p,
    };
    let i18 = match expect_byte(s, i17, 125) {
        None => {
            return None;
        },
        Some(p) => p,
    };
    let tail = skip_ws(s, i18);
    if tail == s.len() && !dt.neg && !(state.w.mant == 0 && state.x.mant == 0 && state.y.mant == 0
        && state.z.mant == 0) {
        Some(Sample { dt, accel, gyro, mag, state })
    } else {
        None
    }
}

pub proof fn lemma_p_comma_num_wf(s: Seq<u8>, i: int)
    ensures
        p_comma_num(s, i) matches Some(p) ==> p.0.wf(),
{
    match p_byte(s, i, 44) {
        Some(j) => lemma_p_num_wf(s, sws(s, j)),
        None => (),
    }
}

pub proof fn lemma_p_v3_wf(s: Seq<u8>, i: int)
    ensures
        p_v3(s, i) matches Some(p) ==> p.0.wf(),
{
    match p_byte(s, i, 91) {
        None => (),
        Some(i1) => {
            lemma_p_num_wf(s, sws(s, i1));
            match p_num(s, sws(s, i1)) {
                None => (),
                Some((x, i2)) => {
                    lemma_p_comma_num_wf(s, i2);
                    match p_comma_num(s, i2) {
                        None => (),
                        Some((y, i3)) => lemma_p_comma_num_wf(s, i3),
                    }
                },
            }
        },
    }
}

pub proof fn lemma_p_state_row_wf(s: Seq<u8>, i: int)
    ensures
        p_state_row(s, i) matches Some(p) ==> p.0.wf(),
{
    match p_byte(s, i, 91) {
        None => (),
        Some(i1) => {
            lemma_p_num_wf(s, sws(s, i1));
            match p_num(s, sws(s, i1)) {
                None => (),
                Some((w, i2)) => {
                    lemma_p_comma_num_wf(s, i2);
                    match p_comma_num(s, i2) {
                        None => (),
                        Some((x, i3)) => {
                            lemma_p_comma_num_wf(s, i3);
                            match p_comma_num(s, i3) {
                                None => (),
                                Some((y, i4)) => {
                                    lemma_p_comma_num_wf(s, i4);
                                    match p_comma_num(s, i4) {
                                        None => (),
                                        Some((z, i5)) => {
                                            lemma_p_comma_num_wf(s, i5);
                                            match p_comma_num(s, i5) {
                                                None => (),
                                                Some((e4, i6)) => {
                                                    lemma_p_comma_num_wf(s, i6);
                                                    match p_comma_num(s, i6) {
                                                        None => (),
                                                        Some((e5, i7)) => lemma_p_comma_num_wf(
                                                            s,
                                                            i7,
                                                        ),
                                                    }
                                                },
                                            }
                                        },
                                    }
                                },
                            }
                        },
                    }
                },
            }
        },
    }
}

/// A record the grammar yields is well formed.
pub proof fn lemma_p_sample_wf(s: Seq<u8>)
    ensures
        p_sample(s) matches Some(r) ==> r.wf(),
{
    match p_byte(s, 0, 123) {
        None => (),
        Some(i1) => match p_field(s, i1, key_dt()) {
            None => (),
            Some(i2) => {
                lemma_p_num_wf(s, sws(s, i2));
                match p_num(s, sws(s, i2)) {
                    None => (),
                    Some((dt, i3)) => match p_byte(s, i3, 44) {
                        None => (),
                        Some(i4) => match p_field(s, i4, key_accel()) {
                            None => (),
                            Some(i5) => {
                                lemma_p_v3_wf(s, i5);
                                match p_v3(s, i5) {
                                    None => (),
                                    Some((accel, i6)) => match p_byte(s, i6, 44) {
                                        None => (),
                                        Some(i7) => match p_field(s, i7, key_gyro()) {
                                            None => (),
                                            Some(i8) => {
                                                lemma_p_v3_wf(s, i8);
                                                match p_v3(s, i8) {
                                                    None => (),
                                                    Some((gyro, i9)) => match p_byte(s, i9, 44) {
                                                        None => (),
                                                        Some(i10) => match p_field(
                                                            s,
                                                            i10,
                                                            key_mag(),
                                                        ) {
                                                            None => (),
                                                            Some(i11) => {
                                                                lemma_p_v3_wf(s, i11);
                                                                match p_v3(s, i11) {
                                                                    None => (),
                                                                    Some((mag, i12)) => match p_byte(
                                                                        s,
                                                                        i12,
                                                                        44,
                                                                    ) {
                                                                        None => (),
                                                                        Some(i13) => match p_field(
                                                                            s,
                                                                            i13,
                                                                            key_state(),
                                                                        ) {
                                                                            None => (),
                                                                            Some(i14) => match p_byte(
                                                                                s,
                                                                                i14,
                                                                                91,
                                                                            ) {
                                                                                None => (),
                                                                                Some(i15) => lemma_p_state_row_wf(
                                                                                    s,
                                                                                    i15,
                                                                                ),
                                                                            },
                                                                        },
                                                                    },
                                                                }
                                                            },
                                                        },
                                                    },
                                                }
                                            },
                                        },
                                    },
                                }
                            },
                        },
                    },
                }
            },
        },
    }
}

/// The records of the well-formed lines of a log, in their order.
pub open spec fn decode_all(lines: Seq<Seq<u8>>) -> Seq<Sample>
    decreases lines.len(),
{
    if lines.len() == 0 {
        Seq::empty()
    } else {
        let pre = decode_all(lines.drop_last());
        match p_sample(lines.last()) {
            Some(r) => pre.push(r),
            None => pre,
        }
    }
}

/// Malformed-line resilience: decoding a mixed run of lines yields the
/// records of exactly the well-formed lines, in their original order —
/// one record per well-formed line, none for the rest.
pub proof fn lemma_decode_all_filters(lines: Seq<Seq<u8>>)
    ensures
        decode_all(lines) == lines.filter(|l: Seq<u8>| p_sample(l) is Some).map_values(
            |l: Seq<u8>| p_sample(l)->0,
        ),
    decreases lines.len(),
{
    reveal(Seq::filter);
    let pred = |l: Seq<u8>| p_sample(l) is Some;
    let f = |l: Seq<u8>| p_sample(l)->0;
    if lines.len() == 0 {
        assert(decode_all(lines) =~= lines.filter(pred).map_values(f));
    } else {
        lemma_decode_all_filters(lines.drop_last());
        let sub = lines.drop_last().filter(pred);
        if pred(lines.last()) {
            assert(lines.filter(pred) == sub.push(lines.last()));
            assert(sub.push(lines.last()).map_values(f) =~= sub.map_values(f).push(
                f(lines.last()),
            ));
        } else {
            assert(lines.filter(pred) == sub);
        }
    }
}

/// Every record `decode_all` yields is well formed.
pub proof fn lemma_decode_all_wf(lines: Seq<Seq<u8>>)
    ensures
        forall|k: int|
            0 <= k < decode_all(lines).len() ==> (#[trigger] decode_all(lines)[k]).wf(),
    decreases lines.len(),
{
    if lines.len() > 0 {
        lemma_decode_all_wf(lines.drop_last());
        lemma_p_sample_wf(lines.last());
        let pre = decode_all(lines.drop_last());
        assert forall|k: int| 0 <= k < decode_all(lines).len() implies (#[trigger] decode_all(
            lines,
        )[k]).wf() by {
            if k < pre.len() {
                assert(decode_all(lines)[k] == pre[k]);
            }
        }
    }
}

} // verus!
