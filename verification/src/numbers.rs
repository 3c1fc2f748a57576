//! Decimal numbers: writing them, and reading them back.

use vstd::prelude::*;
use vstd::string::*;
use vstd::slice::slice_subrange;
use crate::text::{char_is_digit, char_of_digit, chars_of, digit, digit_value, is_digit};

verus! {

/// `n` in decimal, without leading zeros.
pub open spec fn dec(n: nat) -> Seq<char>
    decreases n,
{
    if n < 10 {
        seq![digit(n as int)]
    } else {
        dec(n / 10).push(digit((n % 10) as int))
    }
}

/// `i` in decimal, with a minus sign where it is negative.
pub open spec fn int_text(i: int) -> Seq<char> {
    if i < 0 {
        seq!['-'] + dec((-i) as nat)
    } else {
        dec(i as nat)
    }
}

/// `s` with zeros in front up to a length of `w`.
pub open spec fn zero_fill(s: Seq<char>, w: int) -> Seq<char> {
    Seq::new((if s.len() < w { w - s.len() } else { 0 }) as nat, |i: int| '0') + s
}

/// `i` in decimal, at least `w` characters long with its sign, zeros behind the sign.
pub open spec fn padded(i: int, w: int) -> Seq<char> {
    if i < 0 {
        seq!['-'] + zero_fill(dec((-i) as nat), w - 1)
    } else {
        zero_fill(dec(i as nat), w)
    }
}

/// Every character of `s` is a digit.
pub open spec fn all_digits(s: Seq<char>) -> bool {
    forall|i: int| 0 <= i < s.len() ==> is_digit(#[trigger] s[i])
}

/// The number that a run of digits stands for.
pub open spec fn value_of(s: Seq<char>) -> int
    decreases s.len(),
{
    if s.len() == 0 {
        0
    } else {
        10 * value_of(s.drop_last()) + digit_value(s.last())
    }
}

/// The integer from `lo` to `hi` that `s` stands for: digits, after a plus sign or,
/// where `lo` is negative, a minus sign.
pub open spec fn parse_int(s: Seq<char>, lo: int, hi: int) -> Option<int> {
    let negative = s.len() > 0 && s[0] == '-' && lo < 0;
    let body = if negative || (s.len() > 0 && s[0] == '+') {
        s.skip(1)
    } else {
        s
    };
    let v = if negative {
        -value_of(body)
    } else {
        value_of(body)
    };
    if body.len() > 0 && all_digits(body) && lo <= v <= hi {
        Some(v)
    } else {
        None
    }
}

pub proof fn value_of_bounds(s: Seq<char>, k: int)
    requires
        all_digits(s),
        0 <= k <= s.len(),
    ensures
        0 <= value_of(s.take(k)) <= value_of(s),
    decreases s.len(),
{
    if s.len() == 0 {
        assert(s.take(k) =~= s);
    } else {
        let t = s.drop_last();
        assert forall|i: int| 0 <= i < t.len() implies is_digit(#[trigger] t[i]) by {
            assert(t[i] == s[i]);
        }
        assert(is_digit(s[s.len() - 1]));
        value_of_bounds(t, 0);
        if k < s.len() {
            value_of_bounds(t, k);
            assert(t.take(k) =~= s.take(k));
        } else {
            value_of_bounds(t, t.len() as int);
            assert(s.take(k) =~= s);
            assert(t.take(t.len() as int) =~= t);
        }
    }
}

/// The decimal text of a number is digits, and reads back as that number.
pub proof fn dec_reads_back(n: nat)
    ensures
        dec(n).len() > 0,
        all_digits(dec(n)),
        value_of(dec(n)) == n,
    decreases n,
{
    reveal_with_fuel(value_of, 2);
    if n < 10 {
        assert(seq![digit(n as int)].drop_last() =~= Seq::<char>::empty());
    } else {
        dec_reads_back(n / 10);
        let d = digit((n % 10) as int);
        assert(dec(n).drop_last() =~= dec(n / 10));
        assert forall|i: int| 0 <= i < dec(n).len() implies is_digit(#[trigger] dec(n)[i]) by {
            if i < dec(n).len() - 1 {
                assert(dec(n)[i] == dec(n / 10)[i]);
            }
        }
    }
}

/// Reading the decimal text of an integer gives that integer, where it is in range.
pub proof fn parse_int_of_text(i: int, lo: int, hi: int)
    requires
        lo <= i <= hi,
    ensures
        parse_int(int_text(i), lo, hi) == Some(i),
{
    if i < 0 {
        dec_reads_back((-i) as nat);
        assert(int_text(i).skip(1) =~= dec((-i) as nat));
    } else {
        dec_reads_back(i as nat);
        assert(is_digit(dec(i as nat)[0]));
    }
}

/// A number's text has one digit for each factor of ten.
pub proof fn dec_len(n: nat)
    ensures
        n < 10 ==> dec(n).len() == 1,
        10 <= n < 100 ==> dec(n).len() == 2,
        100 <= n < 1000 ==> dec(n).len() == 3,
        1000 <= n < 10000 ==> dec(n).len() == 4,
        10000 <= n ==> dec(n).len() > 4,
{
    reveal_with_fuel(dec, 5);
}

/// Zeros in front do not change what a run of digits stands for.
pub proof fn value_of_zero_fill(s: Seq<char>, w: int)
    requires
        all_digits(s),
    ensures
        all_digits(zero_fill(s, w)),
        value_of(zero_fill(s, w)) == value_of(s),
    decreases s.len(),
{
    let k = (if s.len() < w { w - s.len() } else { 0 }) as nat;
    let z = Seq::new(k, |i: int| '0');
    assert(zero_fill(s, w) == z + s);
    assert forall|i: int| 0 <= i < (z + s).len() implies is_digit(#[trigger] (z + s)[i]) by {
        if i >= k {
            assert((z + s)[i] == s[i - k]);
        }
    }
    value_of_zeros(k);
    value_of_prefix_zero(z, s);
}

proof fn value_of_zeros(k: nat)
    ensures
        value_of(Seq::new(k, |i: int| '0')) == 0,
    decreases k,
{
    if k > 0 {
        value_of_zeros((k - 1) as nat);
        assert(Seq::new(k, |i: int| '0').drop_last() =~= Seq::new((k - 1) as nat, |i: int| '0'));
    }
}

proof fn value_of_prefix_zero(z: Seq<char>, s: Seq<char>)
    requires
        value_of(z) == 0,
    ensures
        value_of(z + s) == value_of(s),
    decreases s.len(),
{
    if s.len() == 0 {
        assert(z + s =~= z);
    } else {
        assert((z + s).drop_last() =~= z + s.drop_last());
        value_of_prefix_zero(z, s.drop_last());
    }
}

/// Appends `n` in decimal.
fn push_dec(out: &mut String, n: u64)
    ensures
        final(out)@ == old(out)@ + dec(n as nat),
    decreases n,
{
    if n >= 10 {
        push_dec(out, n / 10);
    }
    out.push(char_of_digit((n % 10) as u8));
    assert(out@ =~= old(out)@ + dec(n as nat));
}

/// `n` in decimal.
pub fn u64_text(n: u64) -> (r: String)
    ensures
        r@ == dec(n as nat),
{
    let mut out = String::new();
    push_dec(&mut out, n);
    assert(out@ =~= dec(n as nat));
    out
}

/// `i` in decimal.
pub fn i64_text(i: i64) -> (r: String)
    ensures
        r@ == int_text(i as int),
{
    let mut out = String::new();
    if i < 0 {
        out.push('-');
        let m: u64 = (-(i + 1)) as u64 + 1;
        push_dec(&mut out, m);
        assert(out@ =~= int_text(i as int));
    } else {
        push_dec(&mut out, i as u64);
        assert(out@ =~= int_text(i as int));
    }
    out
}

/// `i` in decimal, at least `w` characters long.
pub fn padded_text(i: i64, w: usize) -> (r: String)
    requires
        w >= 1,
    ensures
        r@ == padded(i as int, w as int),
{
    let mut out = String::new();
    let m: u64 = if i < 0 {
        (-(i + 1)) as u64 + 1
    } else {
        i as u64
    };
    let body = u64_text(m);
    let width: usize = if i < 0 {
        w - 1
    } else {
        w
    };
    if i < 0 {
        out.push('-');
    }
    let n: usize = body.as_str().unicode_len();
    let mut k: usize = n;
    let ghost head = out@;
    while k < width
        invariant
            n <= k,
            n == body@.len(),
            k <= width || k == n,
            out@ == head + Seq::new((k - n) as nat, |j: int| '0'),
        decreases width - k,
    {
        out.push('0');
        assert(out@ =~= head + Seq::new((k + 1 - n) as nat, |j: int| '0'));
        k = k + 1;
    }
    out.append(body.as_str());
    assert(out@ =~= head + zero_fill(body@, width as int));
    assert(out@ =~= padded(i as int, w as int));
    out
}

/// The number that the digits `s` stand for, if `s` is digits and that is at most `cap`.
fn digits_up_to(s: &[char], cap: u64) -> (r: Option<u64>)
    requires
        cap <= 0x7fff_ffff_ffff_ffff + 1,
    ensures
        r == (if s@.len() > 0 && all_digits(s@) && value_of(s@) <= cap {
            Some(value_of(s@) as u64)
        } else {
            None
        }),
{
    if s.len() == 0 {
        return None;
    }
    let mut v: u128 = 0;
    let mut i: usize = 0;
    assert(s@.take(0) =~= Seq::<char>::empty());
    while i < s.len()
        invariant
            0 <= i <= s@.len(),
            forall|j: int| 0 <= j < i ==> is_digit(#[trigger] s@[j]),
            v == value_of(s@.take(i as int)),
            v <= cap,
            cap <= 0x7fff_ffff_ffff_ffff + 1,
        decreases s@.len() - i,
    {
        if !char_is_digit(s[i]) {
            assert(!is_digit(s@[i as int]));
            return None;
        }
        assert(s@.take(i + 1).drop_last() =~= s@.take(i as int));
        v = v * 10 + ((s[i] as u32) - 48) as u128;
        if v > cap as u128 {
            proof {
                if all_digits(s@) {
                    value_of_bounds(s@, i + 1);
                }
            }
            return None;
        }
        i = i + 1;
    }
    assert(s@.take(i as int) =~= s@);
    Some(v as u64)
}

/// The `i64` that `s` stands for.
pub fn parse_i64(s: &[char]) -> (r: Option<i64>)
    ensures
        r == (match parse_int(s@, i64::MIN as int, i64::MAX as int) {
            Some(v) => Some(v as i64),
            None => None,
        }),
{
    proof {
        if s@.len() > 0 && all_digits(s@.skip(1)) {
            value_of_bounds(s@.skip(1), 0);
            assert(s@.skip(1).take(0) =~= Seq::<char>::empty());
        }
        if all_digits(s@) {
            value_of_bounds(s@, 0);
            assert(s@.take(0) =~= Seq::<char>::empty());
        }
    }
    if s.len() > 0 && s[0] == '-' {
        let body = slice_subrange(s, 1, s.len());
        assert(body@ =~= s@.skip(1));
        match digits_up_to(body, 0x8000_0000_0000_0000) {
            Some(v) => {
                if v == 0x8000_0000_0000_0000 {
                    Some(i64::MIN)
                } else {
                    Some(-(v as i64))
                }
            },
            None => None,
        }
    } else if s.len() > 0 && s[0] == '+' {
        let body = slice_subrange(s, 1, s.len());
        assert(body@ =~= s@.skip(1));
        match digits_up_to(body, 0x7fff_ffff_ffff_ffff) {
            Some(v) => Some(v as i64),
            None => None,
        }
    } else {
        match digits_up_to(s, 0x7fff_ffff_ffff_ffff) {
            Some(v) => Some(v as i64),
            None => None,
        }
    }
}

/// The `i32` that `s` stands for.
pub fn parse_i32(s: &[char]) -> (r: Option<i32>)
    ensures
        r == (match parse_int(s@, i32::MIN as int, i32::MAX as int) {
            Some(v) => Some(v as i32),
            None => None,
        }),
{
    match parse_i64(s) {
        Some(v) => {
            if (i32::MIN as i64) <= v && v <= (i32::MAX as i64) {
                Some(v as i32)
            } else {
                None
            }
        },
        None => None,
    }
}

/// The `u32` that `s` stands for.
pub fn parse_u32(s: &[char]) -> (r: Option<u32>)
    ensures
        r == (match parse_int(s@, 0, u32::MAX as int) {
            Some(v) => Some(v as u32),
            None => None,
        }),
{
    proof {
        if s@.len() > 0 && all_digits(s@.skip(1)) {
            value_of_bounds(s@.skip(1), 0);
            assert(s@.skip(1).take(0) =~= Seq::<char>::empty());
        }
        if all_digits(s@) {
            value_of_bounds(s@, 0);
            assert(s@.take(0) =~= Seq::<char>::empty());
        }
    }
    let r = if s.len() > 0 && s[0] == '+' {
        let body = slice_subrange(s, 1, s.len());
        assert(body@ =~= s@.skip(1));
        digits_up_to(body, u32::MAX as u64)
    } else {
        digits_up_to(s, u32::MAX as u64)
    };
    match r {
        Some(v) => Some(v as u32),
        None => None,
    }
}

/// The `u32` that the string `s` stands for.
pub fn parse_u32_str(s: &str) -> (r: Option<u32>)
    ensures
        r == (match parse_int(s@, 0, u32::MAX as int) {
            Some(v) => Some(v as u32),
            None => None,
        }),
{
    let v = chars_of(s);
    parse_u32(v.as_slice())
}

/// The `i32` that the string `s` stands for.
pub fn parse_i32_str(s: &str) -> (r: Option<i32>)
    ensures
        r == (match parse_int(s@, i32::MIN as int, i32::MAX as int) {
            Some(v) => Some(v as i32),
            None => None,
        }),
{
    let v = chars_of(s);
    parse_i32(v.as_slice())
}

} // verus!
