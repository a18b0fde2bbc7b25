//! Decimal text for [`Fx`] numbers.
//!
//! A number is written as an optional `-`, an integer part, and exactly six
//! fractional digits (`0.500000`). Parsing accepts the more liberal form
//! `-? digits (. digits)?` with one to nineteen integer digits and one to six
//! fractional digits; any other text, and any value outside the representable
//! range, is rejected. Formatting then parsing gives back the same number,
//! which [`lemma_parse_fmt_round_trip`] proves.

use vstd::prelude::*;

use crate::fixed::Fx;
use crate::fixed::SCALE;

verus! {

/// Whether `c` is a decimal digit.
pub open spec fn is_digit(c: char) -> bool {
    '0' <= c <= '9'
}

/// The digit character for `d` in `0..10`.
pub open spec fn digit_char(d: int) -> char {
    if d == 0 {
        '0'
    } else if d == 1 {
        '1'
    } else if d == 2 {
        '2'
    } else if d == 3 {
        '3'
    } else if d == 4 {
        '4'
    } else if d == 5 {
        '5'
    } else if d == 6 {
        '6'
    } else if d == 7 {
        '7'
    } else if d == 8 {
        '8'
    } else {
        '9'
    }
}

/// The value of a digit character, and `-1` for any other character.
pub open spec fn char_val(c: char) -> int {
    if c == '0' {
        0
    } else if c == '1' {
        1
    } else if c == '2' {
        2
    } else if c == '3' {
        3
    } else if c == '4' {
        4
    } else if c == '5' {
        5
    } else if c == '6' {
        6
    } else if c == '7' {
        7
    } else if c == '8' {
        8
    } else if c == '9' {
        9
    } else {
        -1
    }
}

/// Whether every character of `s` is a decimal digit.
pub open spec fn all_digits(s: Seq<char>) -> bool {
    forall|i: int| 0 <= i < s.len() ==> is_digit(#[trigger] s[i])
}

/// The number a digit string denotes, most significant digit first.
pub open spec fn digits_val(s: Seq<char>) -> int
    decreases s.len(),
{
    if s.len() == 0 {
        0
    } else {
        digits_val(s.drop_last()) * 10 + char_val(s.last())
    }
}

/// The shortest digit string for `n` (a single `0` for zero).
pub open spec fn dec_digits(n: nat) -> Seq<char>
    decreases n,
{
    if n < 10 {
        seq![digit_char(n as int)]
    } else {
        dec_digits(n / 10).push(digit_char((n % 10) as int))
    }
}

/// The digit string for `n` padded with leading zeros to width `w`
/// (the low `w` digits of `n`).
pub open spec fn dec_digits_w(n: nat, w: nat) -> Seq<char>
    decreases w,
{
    if w == 0 {
        seq![]
    } else {
        dec_digits_w(n / 10, (w - 1) as nat).push(digit_char((n % 10) as int))
    }
}

/// Ten to the `w`.
pub open spec fn pow10(w: nat) -> nat
    decreases w,
{
    if w == 0 {
        1
    } else {
        10 * pow10((w - 1) as nat)
    }
}

/// The index of the first `.` in `s`, or `-1` when there is none.
pub open spec fn first_dot(s: Seq<char>) -> int
    decreases s.len(),
{
    if s.len() == 0 {
        -1
    } else if s[0] == '.' {
        0
    } else {
        let r = first_dot(s.drop_first());
        if r < 0 {
            -1
        } else {
            r + 1
        }
    }
}

/// The magnitude in millionths that the unsigned body `s` denotes, or
/// `None` when `s` is not of the accepted numeric form.
pub open spec fn spec_magnitude(s: Seq<char>) -> Option<int> {
    let d = first_dot(s);
    if d < 0 {
        if 1 <= s.len() <= 19 && all_digits(s) {
            Some(digits_val(s) * SCALE)
        } else {
            None
        }
    } else {
        let ip = s.subrange(0, d);
        let fp = s.subrange(d + 1, s.len() as int);
        if 1 <= ip.len() <= 19 && all_digits(ip) && 1 <= fp.len() <= 6 && all_digits(fp) {
            Some(digits_val(ip) * SCALE + digits_val(fp) * pow10((6 - fp.len()) as nat))
        } else {
            None
        }
    }
}

/// The number the text `s` denotes, or `None` when `s` is not numeric or
/// does not fit the representable range.
pub open spec fn spec_parse_num(s: Seq<char>) -> Option<Fx> {
    if s.len() > 0 && s[0] == '-' {
        match spec_magnitude(s.drop_first()) {
            Some(m) => if m <= 0x8000000000000000 {
                Some(Fx { raw: (-m) as i64 })
            } else {
                None
            },
            None => None,
        }
    } else {
        match spec_magnitude(s) {
            Some(m) => if m <= i64::MAX {
                Some(Fx { raw: m as i64 })
            } else {
                None
            },
            None => None,
        }
    }
}

/// The canonical text for the number with `raw` millionths: a sign, the
/// integer part, a dot, and exactly six fractional digits.
pub open spec fn spec_fmt_raw(raw: int) -> Seq<char> {
    let m = if raw < 0 {
        -raw
    } else {
        raw
    };
    let sign: Seq<char> = if raw < 0 {
        seq!['-']
    } else {
        seq![]
    };
    sign + dec_digits((m / (SCALE as int)) as nat) + seq!['.'] + dec_digits_w(
        (m % (SCALE as int)) as nat,
        6,
    )
}

proof fn lemma_digit_char_val(d: int)
    requires
        0 <= d < 10,
    ensures
        char_val(digit_char(d)) == d,
        is_digit(digit_char(d)),
{
}

proof fn lemma_dec_digits(n: nat)
    ensures
        dec_digits(n).len() >= 1,
        all_digits(dec_digits(n)),
        digits_val(dec_digits(n)) == n,
    decreases n,
{
    if n < 10 {
        lemma_digit_char_val(n as int);
        let s = dec_digits(n);
        assert(s == seq![digit_char(n as int)]);
        assert(s.drop_last() =~= Seq::<char>::empty());
        assert(digits_val(s.drop_last()) == 0);
        assert(digits_val(s) == digits_val(s.drop_last()) * 10 + char_val(s.last()));
        assert(s.last() == digit_char(n as int));
    } else {
        lemma_dec_digits(n / 10);
        lemma_digit_char_val((n % 10) as int);
        let s = dec_digits(n);
        assert(s == dec_digits(n / 10).push(digit_char((n % 10) as int)));
        assert(s.drop_last() =~= dec_digits(n / 10));
        assert(s.last() == digit_char((n % 10) as int));
        assert(digits_val(s) == (n / 10) * 10 + (n % 10));
        assert(forall|i: int| 0 <= i < s.len() ==> is_digit(#[trigger] s[i])) by {
            assert(forall|i: int|
                0 <= i < s.len() - 1 ==> #[trigger] s[i] == dec_digits(n / 10)[i]);
        }
    }
}

proof fn lemma_dec_digits_len(n: nat, w: nat)
    requires
        1 <= w,
        n < pow10(w),
    ensures
        dec_digits(n).len() <= w,
    decreases w,
{
    if n < 10 {
    } else {
        assert(pow10(w) == 10 * pow10((w - 1) as nat));
        assert(n / 10 < pow10((w - 1) as nat));
        assert(w >= 2);
        lemma_dec_digits_len(n / 10, (w - 1) as nat);
    }
}

proof fn lemma_dec_digits_w(n: nat, w: nat)
    requires
        n < pow10(w),
    ensures
        dec_digits_w(n, w).len() == w,
        all_digits(dec_digits_w(n, w)),
        digits_val(dec_digits_w(n, w)) == n,
    decreases w,
{
    if w == 0 {
    } else {
        assert(pow10(w) == 10 * pow10((w - 1) as nat));
        assert(n / 10 < pow10((w - 1) as nat));
        lemma_dec_digits_w(n / 10, (w - 1) as nat);
        lemma_digit_char_val((n % 10) as int);
        let s = dec_digits_w(n, w);
        assert(s.drop_last() =~= dec_digits_w(n / 10, (w - 1) as nat));
        assert(digits_val(s) == (n / 10) * 10 + (n % 10));
        assert(forall|i: int| 0 <= i < s.len() ==> is_digit(#[trigger] s[i])) by {
            assert(forall|i: int|
                0 <= i < s.len() - 1 ==> #[trigger] s[i] == dec_digits_w(
                    n / 10,
                    (w - 1) as nat,
                )[i]);
        }
    }
}

proof fn lemma_digits_val_bound(s: Seq<char>)
    requires
        all_digits(s),
    ensures
        0 <= digits_val(s) < pow10(s.len()),
    decreases s.len(),
{
    if s.len() == 0 {
    } else {
        assert(all_digits(s.drop_last())) by {
            assert(forall|i: int|
                0 <= i < s.len() - 1 ==> #[trigger] s.drop_last()[i] == s[i]);
        }
        lemma_digits_val_bound(s.drop_last());
        assert(is_digit(s.last()));
        assert(0 <= char_val(s.last()) <= 9);
        assert(pow10(s.len()) == 10 * pow10((s.len() - 1) as nat));
    }
}

proof fn lemma_first_dot_none(s: Seq<char>)
    requires
        forall|i: int| 0 <= i < s.len() ==> #[trigger] s[i] != '.',
    ensures
        first_dot(s) == -1,
    decreases s.len(),
{
    if s.len() > 0 {
        assert(forall|i: int|
            0 <= i < s.len() - 1 ==> #[trigger] s.drop_first()[i] == s[i + 1]);
        lemma_first_dot_none(s.drop_first());
    }
}

proof fn lemma_first_dot_at(s: Seq<char>, k: int)
    requires
        0 <= k < s.len(),
        s[k] == '.',
        forall|i: int| 0 <= i < k ==> #[trigger] s[i] != '.',
    ensures
        first_dot(s) == k,
    decreases k,
{
    if k > 0 {
        assert(forall|i: int|
            0 <= i < s.len() - 1 ==> #[trigger] s.drop_first()[i] == s[i + 1]);
        lemma_first_dot_at(s.drop_first(), k - 1);
    }
}

/// Relies on String::push: it appends exactly the one character.
#[verifier::external_body]
fn push_char(s: &mut String, c: char)
    ensures
        final(s)@ == old(s)@.push(c),
{
    s.push(c);
}

fn digit_to_char(d: u64) -> (c: char)
    requires
        d < 10,
    ensures
        c == digit_char(d as int),
{
    if d == 0 {
        '0'
    } else if d == 1 {
        '1'
    } else if d == 2 {
        '2'
    } else if d == 3 {
        '3'
    } else if d == 4 {
        '4'
    } else if d == 5 {
        '5'
    } else if d == 6 {
        '6'
    } else if d == 7 {
        '7'
    } else if d == 8 {
        '8'
    } else {
        '9'
    }
}

fn digit_of(c: char) -> (r: Option<u64>)
    ensures
        is_digit(c) ==> r == Some(char_val(c) as u64),
        !is_digit(c) ==> r is None,
{
    if c == '0' {
        Some(0)
    } else if c == '1' {
        Some(1)
    } else if c == '2' {
        Some(2)
    } else if c == '3' {
        Some(3)
    } else if c == '4' {
        Some(4)
    } else if c == '5' {
        Some(5)
    } else if c == '6' {
        Some(6)
    } else if c == '7' {
        Some(7)
    } else if c == '8' {
        Some(8)
    } else if c == '9' {
        Some(9)
    } else {
        None
    }
}

fn fmt_u64(n: u64) -> (v: Vec<char>)
    ensures
        v@ == dec_digits(n as nat),
    decreases n,
{
    if n < 10 {
        let mut v: Vec<char> = Vec::new();
        v.push(digit_to_char(n));
        proof {
            assert(v@ =~= dec_digits(n as nat));
        }
        v
    } else {
        let mut v = fmt_u64(n / 10);
        v.push(digit_to_char(n % 10));
        proof {
            assert(v@ =~= dec_digits(n as nat));
        }
        v
    }
}

fn fmt_u64_w(n: u64, w: u64) -> (v: Vec<char>)
    ensures
        v@ == dec_digits_w(n as nat, w as nat),
    decreases w,
{
    if w == 0 {
        let v: Vec<char> = Vec::new();
        proof {
            assert(v@ =~= dec_digits_w(n as nat, 0));
        }
        v
    } else {
        let mut v = fmt_u64_w(n / 10, w - 1);
        v.push(digit_to_char(n % 10));
        proof {
            assert(v@ =~= dec_digits_w(n as nat, w as nat));
        }
        v
    }
}

fn append_chars(s: &mut String, v: &Vec<char>)
    ensures
        final(s)@ == old(s)@ + v@,
{
    let n = v.len();
    let mut i: usize = 0;
    while i < n
        invariant
            i <= n,
            n == v@.len(),
            s@ == old(s)@ + v@.subrange(0, i as int),
        decreases n - i,
    {
        push_char(s, v[i]);
        proof {
            assert(old(s)@ + v@.subrange(0, i + 1) =~= (old(s)@ + v@.subrange(
                0,
                i as int,
            )).push(v@[i as int]));
        }
        i = i + 1;
    }
    proof {
        assert(v@.subrange(0, n as int) =~= v@);
    }
}

/// Renders a number as its canonical decimal text.
pub fn fmt_fx(v: Fx) -> (s: String)
    ensures
        s@ == spec_fmt_raw(v.raw as int),
{
    let mut out = String::new();
    let m: u64 = if v.raw < 0 {
        push_char(&mut out, '-');
        (-(v.raw as i128)) as u64
    } else {
        v.raw as u64
    };
    proof {
        assert(m == (if v.raw < 0 {
            -(v.raw as int)
        } else {
            v.raw as int
        }));
    }
    let ip = fmt_u64(m / 1000000);
    append_chars(&mut out, &ip);
    push_char(&mut out, '.');
    let fp = fmt_u64_w(m % 1000000, 6);
    append_chars(&mut out, &fp);
    proof {
        assert(out@ =~= spec_fmt_raw(v.raw as int));
    }
    out
}

fn scan_digits_val(s: &str, from: usize, to: usize) -> (r: Option<u128>)
    requires
        from <= to <= s@.len(),
        to - from <= 19,
    ensures
        match r {
            Some(v) => all_digits(s@.subrange(from as int, to as int)) && v as int == digits_val(
                s@.subrange(from as int, to as int),
            ),
            None => !all_digits(s@.subrange(from as int, to as int)),
        },
{
    let mut acc: u128 = 0;
    let mut i: usize = from;
    while i < to
        invariant
            from <= i <= to <= s@.len(),
            to - from <= 19,
            all_digits(s@.subrange(from as int, i as int)),
            acc as int == digits_val(s@.subrange(from as int, i as int)),
            acc < 10000000000000000000u128,
        decreases to - i,
    {
        let c = s.get_char(i);
        match digit_of(c) {
            Some(d) => {
                proof {
                    let pre = s@.subrange(from as int, i as int);
                    let cur = s@.subrange(from as int, i + 1);
                    assert(cur.drop_last() =~= pre);
                    assert(cur.last() == s@[i as int]);
                    assert(all_digits(cur));
                    lemma_digits_val_bound(cur);
                    assert(cur.len() <= 19);
                    lemma_pow10_le(cur.len(), 19);
                    assert(pow10(19) == 10000000000000000000) by {
                        reveal_with_fuel(pow10, 22);
                    }
                }
                acc = acc * 10 + (d as u128);
            },
            None => {
                proof {
                    let whole = s@.subrange(from as int, to as int);
                    assert(whole[i - from] == s@[i as int]);
                    assert(!is_digit(whole[i - from]));
                }
                return None;
            },
        }
        i = i + 1;
    }
    proof {
        assert(s@.subrange(from as int, to as int) =~= s@.subrange(from as int, i as int));
    }
    Some(acc)
}

proof fn lemma_pow10_le(a: nat, b: nat)
    requires
        a <= b,
    ensures
        pow10(a) <= pow10(b),
    decreases b,
{
    if a < b {
        lemma_pow10_le(a, (b - 1) as nat);
        assert(pow10(b) == 10 * pow10((b - 1) as nat));
    }
}

fn find_dot(s: &str, from: usize) -> (r: Option<usize>)
    requires
        from <= s@.len(),
    ensures
        match r {
            Some(k) => from <= k < s@.len() && s@[k as int] == '.' && (forall|j: int|
                from <= j < k ==> #[trigger] s@[j] != '.'),
            None => forall|j: int| from <= j < s@.len() ==> #[trigger] s@[j] != '.',
        },
{
    let len = s.unicode_len();
    let mut i: usize = from;
    while i < len
        invariant
            from <= i <= len == s@.len(),
            forall|j: int| from <= j < i ==> #[trigger] s@[j] != '.',
        decreases len - i,
    {
        if s.get_char(i) == '.' {
            return Some(i);
        }
        i = i + 1;
    }
    None
}

#[verifier::rlimit(80)]
fn scan_magnitude(s: &str, from: usize) -> (r: Option<u128>)
    requires
        from <= s@.len(),
    ensures
        match r {
            Some(v) => spec_magnitude(s@.subrange(from as int, s@.len() as int)) == Some(
                v as int,
            ),
            None => spec_magnitude(s@.subrange(from as int, s@.len() as int)) is None,
        },
{
    proof {
        reveal_with_fuel(pow10, 22);
    }
    let len = s.unicode_len();
    let ghost body = s@.subrange(from as int, len as int);
    match find_dot(s, from) {
        None => {
            proof {
                assert(forall|j: int|
                    0 <= j < body.len() ==> #[trigger] body[j] == s@[j + from]);
                lemma_first_dot_none(body);
            }
            if len - from < 1 || len - from > 19 {
                return None;
            }
            match scan_digits_val(s, from, len) {
                Some(v) => {
                    proof {
                        assert(body =~= s@.subrange(from as int, len as int));
                        lemma_digits_val_bound(body);
                        lemma_pow10_le(body.len(), 19);
                    }
                    Some(v * 1000000)
                },
                None => None,
            }
        },
        Some(k) => {
            proof {
                assert(forall|j: int|
                    0 <= j < body.len() ==> #[trigger] body[j] == s@[j + from]);
                lemma_first_dot_at(body, k - from);
            }
            let ipl = k - from;
            let fpl = len - k - 1;
            if ipl < 1 || ipl > 19 || fpl < 1 || fpl > 6 {
                return None;
            }
            let ghost ip = body.subrange(0, k - from);
            let ghost fp = body.subrange(k - from + 1, body.len() as int);
            proof {
                assert(ip =~= s@.subrange(from as int, k as int));
                assert(fp =~= s@.subrange(k + 1, len as int));
            }
            let iv = match scan_digits_val(s, from, k) {
                Some(v) => v,
                None => {
                    return None;
                },
            };
            let fv = match scan_digits_val(s, k + 1, len) {
                Some(v) => v,
                None => {
                    return None;
                },
            };
            let scale_rest = pow10_exec(6 - (fpl as u64));
            proof {
                reveal_with_fuel(pow10, 22);
                lemma_digits_val_bound(ip);
                lemma_digits_val_bound(fp);
                lemma_pow10_le(ip.len(), 19);
                lemma_pow10_le(fp.len(), 6);
                lemma_pow10_le((6 - fp.len()) as nat, 6);
                assert(iv < 10000000000000000000u128);
                assert(fv < 1000000u128);
                assert(scale_rest <= 1000000u128);
                assert(fv * scale_rest <= 1000000000000) by (nonlinear_arith)
                    requires
                        fv < 1000000u128,
                        scale_rest <= 1000000u128,
                ;
            }
            Some(iv * 1000000 + fv * scale_rest)
        },
    }
}

/// Parses decimal text into a number, or `None` when the text is not of
/// the accepted numeric form or does not fit the representable range.
pub fn parse_fx(s: &str) -> (r: Option<Fx>)
    ensures
        r == spec_parse_num(s@),
{
    let len = s.unicode_len();
    let neg = len > 0 && s.get_char(0) == '-';
    let start: usize = if neg {
        1
    } else {
        0
    };
    proof {
        if neg {
            assert(s@.subrange(1, len as int) =~= s@.drop_first());
        } else {
            assert(s@.subrange(0, len as int) =~= s@);
        }
    }
    let mag: u128 = match scan_magnitude(s, start) {
        Some(v) => v,
        None => {
            return None;
        },
    };
    if neg {
        if mag <= 0x8000000000000000u128 {
            let raw = (-(mag as i128)) as i64;
            Some(Fx { raw })
        } else {
            None
        }
    } else {
        if mag <= 0x7fffffffffffffffu128 {
            Some(Fx { raw: mag as i64 })
        } else {
            None
        }
    }
}

fn pow10_exec(w: u64) -> (r: u128)
    requires
        w <= 6,
    ensures
        r == pow10(w as nat),
    decreases w,
{
    proof {
        reveal_with_fuel(pow10, 8);
    }
    if w == 0 {
        1
    } else {
        10 * pow10_exec(w - 1)
    }
}

/// The canonical text of a number is at least eight characters, holds only
/// signs, digits and the dot, and starts with a sign or a digit.
pub proof fn lemma_fmt_shape(raw: int)
    ensures
        spec_fmt_raw(raw).len() >= 8,
        forall|i: int|
            0 <= i < spec_fmt_raw(raw).len() ==> (#[trigger] spec_fmt_raw(raw)[i] == '-'
                || spec_fmt_raw(raw)[i] == '.' || is_digit(spec_fmt_raw(raw)[i])),
        spec_fmt_raw(raw)[0] == '-' || is_digit(spec_fmt_raw(raw)[0]),
{
    reveal_with_fuel(pow10, 8);
    let m = if raw < 0 {
        -raw
    } else {
        raw
    };
    let ip = (m / (SCALE as int)) as nat;
    let fr = (m % (SCALE as int)) as nat;
    lemma_dec_digits(ip);
    assert(fr < pow10(6));
    lemma_dec_digits_w(fr, 6);
    let a = dec_digits(ip);
    let f = dec_digits_w(fr, 6);
    let s = spec_fmt_raw(raw);
    let sign: Seq<char> = if raw < 0 {
        seq!['-']
    } else {
        seq![]
    };
    assert(s == sign + a + seq!['.'] + f);
    assert forall|i: int| 0 <= i < s.len() implies (#[trigger] s[i] == '-' || s[i] == '.'
        || is_digit(s[i])) by {
        let sl = sign.len() as int;
        let al = a.len() as int;
        if i < sl {
            assert(s[i] == '-');
        } else if i < sl + al {
            assert(s[i] == a[i - sl]);
            assert(is_digit(a[i - sl]));
        } else if i == sl + al {
            assert(s[i] == '.');
        } else {
            assert(s[i] == f[i - sl - al - 1]);
            assert(is_digit(f[i - sl - al - 1]));
        }
    }
    if raw < 0 {
        assert(s[0] == '-');
    } else {
        assert(s[0] == a[0]);
        assert(is_digit(a[0]));
    }
}

/// Parsing the canonical text of any number gives back exactly that number.
pub proof fn lemma_parse_fmt_round_trip(v: Fx)
    ensures
        spec_parse_num(spec_fmt_raw(v.raw as int)) == Some(v),
{
    reveal_with_fuel(pow10, 22);
    let raw = v.raw as int;
    let m = if raw < 0 {
        -raw
    } else {
        raw
    };
    let ip = (m / (SCALE as int)) as nat;
    let fr = (m % (SCALE as int)) as nat;
    lemma_dec_digits(ip);
    assert(ip < pow10(13));
    lemma_dec_digits_len(ip, 13);
    assert(fr < pow10(6));
    lemma_dec_digits_w(fr, 6);
    let a = dec_digits(ip);
    let f = dec_digits_w(fr, 6);
    let body = a + seq!['.'] + f;
    assert(body[a.len() as int] == '.');
    assert(forall|i: int| 0 <= i < a.len() ==> #[trigger] body[i] == a[i]);
    assert(forall|i: int| 0 <= i < a.len() ==> body[i] != '.') by {
        assert(forall|i: int| 0 <= i < a.len() ==> is_digit(#[trigger] a[i]));
    }
    lemma_first_dot_at(body, a.len() as int);
    assert(body.subrange(0, a.len() as int) =~= a);
    assert(body.subrange(a.len() as int + 1, body.len() as int) =~= f);
    assert(spec_magnitude(body) == Some(digits_val(a) * SCALE + digits_val(f) * pow10(0)));
    assert(pow10(0) == 1);
    assert(digits_val(a) == ip);
    assert(digits_val(f) == fr);
    assert(digits_val(a) * SCALE + digits_val(f) * pow10(0) == ip * (SCALE as int) + fr)
        by (nonlinear_arith)
        requires
            digits_val(a) == ip,
            digits_val(f) == fr,
            pow10(0) == 1,
            SCALE == 1000000,
    ;
    assert(ip * (SCALE as int) + fr == m);
    let s = spec_fmt_raw(raw);
    if raw < 0 {
        assert(s =~= seq!['-'] + body);
        assert(s[0] == '-');
        assert(s.drop_first() =~= body);
        assert(m <= 0x8000000000000000);
        assert((-m) as i64 == v.raw);
    } else {
        assert(s =~= body);
        assert(s.len() > 0 ==> s[0] != '-') by {
            assert(is_digit(a[0]));
            assert(s[0] == a[0]);
        }
        assert(m <= i64::MAX);
        assert(m as i64 == v.raw);
    }
}

} // verus!
