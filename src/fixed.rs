//! Fixed-point quantities. A length, a velocity, a duration or a coefficient
//! is held as an `i64` count of thousandths of its unit (millimetres,
//! milliseconds, ...).
use vstd::prelude::*;
use crate::text::{all_digits, copy_range, digit_of, digits_value, index_of, is_digit, lemma_digits_prefix, lemma_digits_step};

verus! {

/// Largest magnitude, in thousandths, that the library reads or stores.
pub const FIXED_MAX: i64 = 1_000_000_000_000_000;

/// Largest magnitude of a decimal exponent.
pub const EXP_MAX: u64 = 100;

pub open spec fn abs(v: int) -> int {
    if v < 0 {
        -v
    } else {
        v
    }
}

pub open spec fn in_range(v: int) -> bool {
    -FIXED_MAX <= v <= FIXED_MAX
}

/// A three-component quantity in thousandths.
#[derive(Clone, Copy, Debug, PartialEq, Eq, Structural)]
pub struct Vec3 {
    pub x: i64,
    pub y: i64,
    pub z: i64,
}

impl Vec3 {
    pub open spec fn wf(&self) -> bool {
        in_range(self.x as int) && in_range(self.y as int) && in_range(self.z as int)
    }

    pub fn new(x: i64, y: i64, z: i64) -> (r: Vec3)
        ensures
            r == (Vec3 { x, y, z }),
    {
        Vec3 { x, y, z }
    }

    pub fn zero() -> (r: Vec3)
        ensures
            r == (Vec3 { x: 0, y: 0, z: 0 }),
    {
        Vec3 { x: 0, y: 0, z: 0 }
    }
}

/// Position of the first `e` or `E` in `s`, or -1 when `s` holds none.
pub open spec fn exp_index(s: Seq<char>) -> int
    decreases s.len(),
{
    if s.len() == 0 {
        -1
    } else if s[0] == 'e' || s[0] == 'E' {
        0
    } else {
        let r = exp_index(s.skip(1));
        if r < 0 {
            -1
        } else {
            r + 1
        }
    }
}

/// An exponent: an optional sign, then digits, of magnitude at most `EXP_MAX`.
pub open spec fn parse_exponent(s: Seq<char>) -> Option<int> {
    let neg = s.len() > 0 && s[0] == '-';
    let body = if s.len() > 0 && (s[0] == '-' || s[0] == '+') { s.skip(1) } else { s };
    if body.len() >= 1 && all_digits(body) && digits_value(body) <= EXP_MAX {
        Some(if neg { -(digits_value(body) as int) } else { digits_value(body) as int })
    } else {
        None
    }
}

/// The digits `d` with the decimal point moved `k` places: to the right by
/// appending zeros, to the left by dropping the last digits.
pub open spec fn shift_digits(d: Seq<char>, k: int) -> Seq<char> {
    if k >= 0 {
        d + Seq::new(k as nat, |i: int| '0')
    } else if -k <= d.len() {
        d.take(d.len() + k)
    } else {
        Seq::empty()
    }
}

/// The unsigned part of a decimal number, in thousandths: digits, then
/// optionally a point and more digits, with at least one digit in all, then
/// optionally an exponent (`e` or `E`). Digits past the third decimal are
/// dropped.
pub open spec fn unsigned_fixed(body: Seq<char>) -> Option<nat> {
    let q = exp_index(body);
    let mant = if q < 0 { body } else { body.take(q) };
    let exp = if q < 0 { Some(0int) } else { parse_exponent(body.skip(q + 1)) };
    let p = index_of(mant, '.');
    let whole = if p < 0 { mant } else { mant.take(p) };
    let frac = if p < 0 { Seq::<char>::empty() } else { mant.skip(p + 1) };
    match exp {
        Some(e) => if all_digits(whole) && all_digits(frac) && whole.len() + frac.len() >= 1 {
            Some(digits_value(shift_digits(whole + frac, 3 + e - frac.len())))
        } else {
            None
        },
        None => None,
    }
}

/// The value, in thousandths, of a decimal number such as `-12.5` or `+3`.
/// `1.5e3` is read too; `inf` and `NaN` are not numbers here; digits past
/// the third decimal are dropped; magnitudes over `FIXED_MAX` are refused.
pub open spec fn parse_fixed_spec(s: Seq<char>) -> Option<int> {
    let neg = s.len() > 0 && s[0] == '-';
    let signed = s.len() > 0 && (s[0] == '-' || s[0] == '+');
    let body = if signed { s.skip(1) } else { s };
    match unsigned_fixed(body) {
        Some(m) => if m <= FIXED_MAX {
            Some(if neg { -(m as int) } else { m as int })
        } else {
            None
        },
        None => None,
    }
}

/// The value of a count such as `12` or `+12`, from 1 to `u32::MAX`.
pub open spec fn parse_count_spec(s: Seq<char>) -> Option<nat> {
    let body = if s.len() > 0 && s[0] == '+' { s.skip(1) } else { s };
    if body.len() >= 1 && all_digits(body) && 1 <= digits_value(body) <= u32::MAX {
        Some(digits_value(body))
    } else {
        None
    }
}

fn is_digit_char(c: char) -> (r: bool)
    ensures
        r == is_digit(c),
{
    '0' <= c && c <= '9'
}

fn digit_value(c: char) -> (r: u64)
    requires
        is_digit(c),
    ensures
        r == digit_of(c),
        r <= 9,
{
    ((c as u32) - ('0' as u32)) as u64
}

fn all_digits_in(v: &Vec<char>, from: usize, to: usize) -> (r: bool)
    requires
        from <= to <= v@.len(),
    ensures
        r == all_digits(v@.subrange(from as int, to as int)),
{
    let mut i: usize = from;
    while i < to
        invariant
            from <= i <= to <= v@.len(),
            forall|j: int| from <= j < i ==> is_digit(#[trigger] v@[j]),
        decreases to - i,
    {
        if !is_digit_char(v[i]) {
            assert(!is_digit(v@.subrange(from as int, to as int)[i - from]));
            return false;
        }
        i = i + 1;
    }
    assert forall|j: int| 0 <= j < to - from implies is_digit(#[trigger] v@.subrange(from as int, to as int)[j]) by {
        assert(is_digit(v@[from + j]));
    }
    true
}

/// Reads the digits `v[from..to]` as a number not over `limit`; `None` when
/// one is not a digit or the number is over `limit`.
fn digits_upto(v: &Vec<char>, from: usize, to: usize, limit: u64) -> (r: Option<u64>)
    requires
        from <= to <= v@.len(),
        limit <= u64::MAX / 20,
    ensures
        ({
            let s = v@.subrange(from as int, to as int);
            match r {
                Some(n) => all_digits(s) && n == digits_value(s) && n <= limit,
                None => !all_digits(s) || digits_value(s) > limit,
            }
        }),
{
    let ghost s = v@.subrange(from as int, to as int);
    let mut acc: u64 = 0;
    let mut i: usize = from;
    while i < to
        invariant
            from <= i <= to <= v@.len(),
            s == v@.subrange(from as int, to as int),
            limit <= u64::MAX / 20,
            acc <= limit,
            forall|j: int| 0 <= j < i - from ==> is_digit(#[trigger] s[j]),
            acc == digits_value(s.take(i - from)),
        decreases to - i,
    {
        let c = v[i];
        if !is_digit_char(c) {
            assert(!is_digit(s[i - from]));
            return None;
        }
        let d = digit_value(c);
        proof {
            lemma_digits_step(s, i - from);
        }
        let next = acc * 10 + d;
        if next > limit {
            proof {
                lemma_digits_prefix(s, i - from + 1);
            }
            return None;
        }
        acc = next;
        i = i + 1;
    }
    assert(s.take(to - from) =~= s);
    Some(acc)
}

proof fn lemma_exp_index(s: Seq<char>, k: int)
    requires
        0 <= k <= s.len(),
        forall|j: int| 0 <= j < k ==> s[j] != 'e' && s[j] != 'E',
        k == s.len() || s[k] == 'e' || s[k] == 'E',
    ensures
        exp_index(s) == (if k < s.len() { k } else { -1 }),
    decreases s.len(),
{
    if s.len() > 0 && k > 0 {
        lemma_exp_index(s.skip(1), k - 1);
    }
}

/// Position of the first `e` or `E` in `v[from..to]`, as an absolute index.
fn find_exp(v: &Vec<char>, from: usize, to: usize) -> (r: Option<usize>)
    requires
        from <= to <= v@.len(),
    ensures
        exp_index(v@.subrange(from as int, to as int)) == (match r {
            Some(i) => i - from,
            None => -1,
        }),
        r matches Some(i) ==> from <= i < to,
{
    let mut i: usize = from;
    while i < to
        invariant
            from <= i <= to <= v@.len(),
            forall|j: int| from <= j < i ==> v@[j] != 'e' && v@[j] != 'E',
        decreases to - i,
    {
        if v[i] == 'e' || v[i] == 'E' {
            proof {
                lemma_exp_index(v@.subrange(from as int, to as int), i - from);
            }
            return Some(i);
        }
        i = i + 1;
    }
    proof {
        lemma_exp_index(v@.subrange(from as int, to as int), to - from);
    }
    None
}

/// Reads `v[from..to]` as an exponent (see `parse_exponent`).
fn parse_exp(v: &Vec<char>, from: usize, to: usize) -> (r: Option<i64>)
    requires
        from <= to <= v@.len(),
    ensures
        match parse_exponent(v@.subrange(from as int, to as int)) {
            Some(e) => r == Some(e as i64) && -EXP_MAX <= e <= EXP_MAX,
            None => r is None,
        },
{
    let ghost s = v@.subrange(from as int, to as int);
    let mut start = from;
    let mut neg = false;
    if from < to && (v[from] == '-' || v[from] == '+') {
        neg = v[from] == '-';
        start = from + 1;
    }
    assert(v@.subrange(start as int, to as int) =~= (if s.len() > 0 && (s[0] == '-' || s[0] == '+') {
        s.skip(1)
    } else {
        s
    }));
    if start == to {
        return None;
    }
    match digits_upto(v, start, to, EXP_MAX) {
        Some(n) => if neg {
            Some(-(n as i64))
        } else {
            Some(n as i64)
        },
        None => None,
    }
}

/// `d` followed by `n` zeros.
fn pad_zeros(d: Vec<char>, n: usize) -> (r: Vec<char>)
    ensures
        r@ == d@ + Seq::new(n as nat, |i: int| '0'),
{
    let mut r = d;
    let mut i: usize = 0;
    while i < n
        invariant
            i <= n,
            r@ == d@ + Seq::new(i as nat, |j: int| '0'),
        decreases n - i,
    {
        r.push('0');
        i = i + 1;
        assert(r@ =~= d@ + Seq::new(i as nat, |j: int| '0'));
    }
    r
}

/// The digits `d`, the last `f` of them after the point, moved `3 + e`
/// places to the right.
fn shifted(d: Vec<char>, f: usize, e: i64) -> (r: Vec<char>)
    requires
        f <= d@.len(),
        -EXP_MAX <= e <= EXP_MAX,
        all_digits(d@),
    ensures
        r@ == shift_digits(d@, 3 + e - f),
        all_digits(r@),
{
    let ghost k: int = 3 + e - f;
    let ghost d0 = d@;
    let dl = d.len();
    let up: i64 = 3 + e;
    let r: Vec<char> = if up >= 0 {
        let u = up as usize;
        if u >= f {
            pad_zeros(d, u - f)
        } else {
            copy_range(&d, 0, dl - (f - u))
        }
    } else {
        let n = (-up) as usize;
        if dl - f >= n {
            copy_range(&d, 0, dl - f - n)
        } else {
            Vec::new()
        }
    };
    proof {
        assert(r@ =~= shift_digits(d0, k));
        assert forall|j: int| 0 <= j < r@.len() implies is_digit(#[trigger] r@[j]) by {
            if j < d0.len() {
                assert(r@[j] == d0[j]);
            }
        }
    }
    r
}

/// Reads `v[from..to]` as the unsigned part of a number, not over `FIXED_MAX`.
fn parse_unsigned(v: &Vec<char>, start: usize, to: usize) -> (r: Option<u64>)
    requires
        start <= to <= v@.len(),
    ensures
        ({
            let body = v@.subrange(start as int, to as int);
            match r {
                Some(m) => unsigned_fixed(body) == Some(m as nat) && m <= FIXED_MAX,
                None => match unsigned_fixed(body) {
                    Some(m) => m > FIXED_MAX,
                    None => true,
                },
            }
        }),
{
    let ghost body = v@.subrange(start as int, to as int);
    let q = find_exp(v, start, to);
    let mend = match q {
        Some(i) => i,
        None => to,
    };
    let e: i64 = match q {
        Some(i) => match parse_exp(v, i + 1, to) {
            Some(e) => e,
            None => {
                proof {
                    assert(v@.subrange(i + 1, to as int) =~= body.skip(i - start + 1));
                }
                return None;
            },
        },
        None => 0,
    };
    let ghost mant = v@.subrange(start as int, mend as int);
    proof {
        match q {
            Some(i) => {
                assert(mant =~= body.take(i - start));
                assert(v@.subrange(i + 1, to as int) =~= body.skip(i - start + 1));
            },
            None => {
                assert(mant =~= body);
            },
        }
    }
    let p = crate::text::find_char(v, start, mend, '.');
    let (wend, fstart) = match p {
        Some(i) => (i, i + 1),
        None => (mend, mend),
    };
    let ghost whole = v@.subrange(start as int, wend as int);
    let ghost frac = v@.subrange(fstart as int, mend as int);
    proof {
        let pp = index_of(mant, '.');
        if pp < 0 {
            assert(whole =~= mant);
            assert(frac =~= Seq::<char>::empty());
        } else {
            assert(whole =~= mant.take(pp));
            assert(frac =~= mant.skip(pp + 1));
        }
    }
    if wend - start + (mend - fstart) == 0 {
        return None;
    }
    if !all_digits_in(v, start, wend) || !all_digits_in(v, fstart, mend) {
        return None;
    }
    let mut d = copy_range(v, start, wend);
    let mut fr = copy_range(v, fstart, mend);
    d.append(&mut fr);
    assert(d@ =~= whole + frac);
    assert forall|j: int| 0 <= j < d@.len() implies is_digit(#[trigger] d@[j]) by {
        if j < whole.len() {
            assert(d@[j] == whole[j]);
        } else {
            assert(d@[j] == frac[j - whole.len()]);
        }
    }
    let s = shifted(d, mend - fstart, e);
    proof {
        assert(s@.subrange(0, s@.len() as int) =~= s@);
    }
    digits_upto(&s, 0, s.len(), FIXED_MAX as u64)
}

/// Reads `v[from..to]` as a fixed-point number (see `parse_fixed_spec`).
pub fn parse_fixed(v: &Vec<char>, from: usize, to: usize) -> (r: Option<i64>)
    requires
        from <= to <= v@.len(),
    ensures
        match parse_fixed_spec(v@.subrange(from as int, to as int)) {
            Some(x) => r == Some(x as i64),
            None => r is None,
        },
{
    let ghost s = v@.subrange(from as int, to as int);
    let mut start = from;
    let mut neg = false;
    if from < to && (v[from] == '-' || v[from] == '+') {
        neg = v[from] == '-';
        start = from + 1;
    }
    assert(v@.subrange(start as int, to as int) =~= (if s.len() > 0 && (s[0] == '-' || s[0] == '+') {
        s.skip(1)
    } else {
        s
    }));
    match parse_unsigned(v, start, to) {
        Some(m) => if neg {
            Some(-(m as i64))
        } else {
            Some(m as i64)
        },
        None => None,
    }
}

/// Reads `v[from..to]` as a count (see `parse_count_spec`).
pub fn parse_count(v: &Vec<char>, from: usize, to: usize) -> (r: Option<u32>)
    requires
        from <= to <= v@.len(),
    ensures
        match parse_count_spec(v@.subrange(from as int, to as int)) {
            Some(n) => r == Some(n as u32),
            None => r is None,
        },
{
    let ghost s = v@.subrange(from as int, to as int);
    let mut start = from;
    if from < to && v[from] == '+' {
        start = from + 1;
    }
    assert(v@.subrange(start as int, to as int) =~= (if s.len() > 0 && s[0] == '+' { s.skip(1) } else { s }));
    if start == to {
        return None;
    }
    match digits_upto(v, start, to, u32::MAX as u64) {
        Some(n) => {
            if n == 0 {
                None
            } else {
                Some(n as u32)
            }
        },
        None => None,
    }
}

} // verus!
