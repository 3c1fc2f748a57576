//! Minimal ISO 8601 durations, as JSCalendar's `duration` and `offset` properties use them:
//! `P[n]Y[n]M[n]W[n]DT[n]H[n]M[n]S`.

use vstd::prelude::*;
use vstd::string::*;
use vstd::slice::slice_subrange;
use crate::collections::CloneView;
use crate::numbers::{all_digits, dec, dec_reads_back, parse_i64, parse_int, u64_text};
use crate::text::{char_is_digit, chars_of, first_index_is, index_of, is_digit, split_once};

verus! {

/// The largest number of seconds that a duration can have.
pub const MAX_SECS: i64 = 9_223_372_036_854_775;

/// A signed length of time in whole seconds.
#[derive(Debug, Clone, Copy, PartialEq, Eq, Structural)]
pub struct Duration {
    pub secs: i64,
}

/// `n` seconds are a duration.
pub open spec fn secs_fit(n: int) -> bool {
    -MAX_SECS <= n <= MAX_SECS
}

impl DeepView for Duration {
    type V = int;

    open spec fn deep_view(&self) -> int {
        self.secs as int
    }
}

impl CloneView for Duration {
    fn clone_view(&self) -> (r: Self) {
        *self
    }
}

impl Duration {
    pub open spec fn valid(self) -> bool {
        secs_fit(self.secs as int)
    }

    pub fn zero() -> (r: Duration)
        ensures
            r.secs == 0,
    {
        Duration { secs: 0 }
    }

    pub fn seconds(n: i64) -> (r: Duration)
        requires
            secs_fit(n as int),
        ensures
            r.secs == n,
    {
        Duration { secs: n }
    }

    pub fn minutes(n: i64) -> (r: Duration)
        requires
            secs_fit(n * 60),
        ensures
            r.secs == n * 60,
    {
        Duration { secs: n * 60 }
    }

    pub fn hours(n: i64) -> (r: Duration)
        requires
            secs_fit(n * 3600),
        ensures
            r.secs == n * 3600,
    {
        Duration { secs: n * 3600 }
    }

    pub fn days(n: i64) -> (r: Duration)
        requires
            secs_fit(n * 86400),
        ensures
            r.secs == n * 86400,
    {
        Duration { secs: n * 86400 }
    }
}

/// The seconds of one unit: of the date units a year counts 365 days and a month 30.
pub open spec fn unit_secs(c: char, date: bool) -> Option<int> {
    if date {
        if c == 'Y' {
            Some(365 * 86400int)
        } else if c == 'M' {
            Some(30 * 86400int)
        } else if c == 'W' {
            Some(7 * 86400int)
        } else if c == 'D' {
            Some(86400)
        } else {
            None
        }
    } else {
        if c == 'H' {
            Some(3600)
        } else if c == 'M' {
            Some(60)
        } else if c == 'S' {
            Some(1)
        } else {
            None
        }
    }
}

/// How many digits `s` starts with.
pub open spec fn digit_run(s: Seq<char>) -> int
    decreases s.len(),
{
    if s.len() > 0 && is_digit(s[0]) {
        1 + digit_run(s.skip(1))
    } else {
        0
    }
}

/// `total` and the seconds of the numbers with their units in `s`. The outer `None` is a
/// duration that is too long, the inner one a text that is no duration. Digits at the end
/// without a unit count for nothing.
pub open spec fn group_secs(s: Seq<char>, date: bool, total: int) -> Option<Option<int>>
    decreases s.len(),
{
    let i = digit_run(s);
    if i < 0 || i >= s.len() {
        Some(Some(total))
    } else {
        match (parse_int(s.take(i), i64::MIN as int, i64::MAX as int), unit_secs(s[i], date)) {
            (Some(n), Some(u)) => if secs_fit(n * u) && secs_fit(total + n * u) {
                group_secs(s.skip(i + 1), date, total + n * u)
            } else {
                None
            },
            _ => Some(None),
        }
    }
}

/// The seconds of the part of a duration behind its sign and its `P`.
pub open spec fn body_secs(s: Seq<char>) -> Option<Option<int>> {
    let (date, time) = match split_once(s, 'T') {
        Some(p) => (p.0, Some(p.1)),
        None => (s, None),
    };
    match group_secs(date, true, 0) {
        Some(Some(a)) => match time {
            Some(t) => match group_secs(t, false, 0) {
                Some(Some(b)) => if secs_fit(a + b) {
                    Some(Some(a + b))
                } else {
                    None
                },
                x => x,
            },
            None => Some(Some(a)),
        },
        x => x,
    }
}

/// The seconds that a text stands for. The outer `None` is a duration that is too long for
/// a [`Duration`], the inner one a text that is no duration.
pub open spec fn duration_secs(s: Seq<char>) -> Option<Option<int>> {
    let negative = s.len() > 0 && s[0] == '-';
    let signless = if negative {
        s.skip(1)
    } else {
        s
    };
    if signless.len() == 0 || signless[0] != 'P' {
        Some(None)
    } else {
        match body_secs(signless.skip(1)) {
            Some(Some(n)) => Some(
                Some(
                    if negative {
                        -n
                    } else {
                        n
                    },
                ),
            ),
            x => x,
        }
    }
}

/// The text of a duration: days, hours, minutes and seconds, each where it is not zero.
pub open spec fn duration_text(secs: int) -> Seq<char> {
    if secs == 0 {
        "PT0S"@
    } else {
        let n = if secs < 0 {
            -secs
        } else {
            secs
        };
        (if secs < 0 {
            "-P"@
        } else {
            "P"@
        }) + day_text(n / 86400) + clock_part(n % 86400)
    }
}

/// A number with its unit, or nothing for zero.
pub open spec fn unit_text(n: int, unit: char) -> Seq<char> {
    if n > 0 {
        dec(n as nat).push(unit)
    } else {
        Seq::empty()
    }
}

pub open spec fn day_text(n: int) -> Seq<char> {
    unit_text(n, 'D')
}

/// The part of the text from its `T` on.
pub open spec fn clock_part(rem: int) -> Seq<char> {
    if rem > 0 {
        seq!['T'] + unit_text(rem / 3600, 'H') + unit_text(rem % 3600 / 60, 'M') + unit_text(
            rem % 60,
            'S',
        )
    } else {
        Seq::empty()
    }
}

proof fn digit_run_bounds(s: Seq<char>)
    ensures
        0 <= digit_run(s) <= s.len(),
        forall|i: int| 0 <= i < digit_run(s) ==> is_digit(#[trigger] s[i]),
        digit_run(s) < s.len() ==> !is_digit(s[digit_run(s)]),
    decreases s.len(),
{
    if s.len() > 0 && is_digit(s[0]) {
        let t = s.skip(1);
        digit_run_bounds(t);
        assert forall|i: int| 0 <= i < digit_run(s) implies is_digit(#[trigger] s[i]) by {
            if i > 0 {
                assert(t[i - 1] == s[i]);
            }
        }
    }
}

proof fn digit_run_is(s: Seq<char>, k: int)
    requires
        0 <= k <= s.len(),
        forall|i: int| 0 <= i < k ==> is_digit(#[trigger] s[i]),
        k < s.len() ==> !is_digit(s[k]),
    ensures
        digit_run(s) == k,
{
    digit_run_bounds(s);
    let f = digit_run(s);
    if f < k {
        assert(is_digit(s[f]));
    } else if k < f {
        assert(is_digit(s[k]));
    }
}

/// The seconds of the numbers with their units in `s`.
fn parse_component_group(s: &[char], date: bool) -> (r: Option<Option<i64>>)
    ensures
        match r {
            Some(Some(n)) => group_secs(s@, date, 0) == Some(Some(n as int)) && secs_fit(n as int)
                && n >= 0,
            Some(None) => group_secs(s@, date, 0) == Some(None::<int>),
            None => group_secs(s@, date, 0) is None,
        },
{
    let mut total: i64 = 0;
    let mut from: usize = 0;
    assert(s@.skip(0) =~= s@);
    loop
        invariant
            0 <= from <= s@.len(),
            group_secs(s@.skip(from as int), date, total as int) == group_secs(s@, date, 0),
            0 <= total <= MAX_SECS,
        decreases s@.len() - from,
    {
        let ghost rest = s@.skip(from as int);
        let mut i: usize = from;
        while i < s.len() && char_is_digit(s[i])
            invariant
                from <= i <= s@.len(),
                forall|j: int| from <= j < i ==> is_digit(#[trigger] s@[j]),
            decreases s@.len() - i,
        {
            i = i + 1;
        }
        proof {
            assert forall|j: int| 0 <= j < i - from implies is_digit(#[trigger] rest[j]) by {
                assert(rest[j] == s@[from + j]);
            }
            digit_run_is(rest, i - from);
        }
        if i == s.len() {
            return Some(Some(total));
        }
        let num = slice_subrange(s, from, i);
        assert(num@ =~= rest.take(i - from));
        let n: i64 = match parse_i64(num) {
            Some(n) => n,
            None => {
                return Some(None);
            },
        };
        proof {
            if rest.take(i - from).len() > 0 {
                assert(is_digit(rest[0]));
                assert(rest.take(i - from)[0] == rest[0]);
                assert(all_digits(rest.take(i - from)));
                crate::numbers::value_of_bounds(rest.take(i - from), 0);
                assert(rest.take(i - from).take(0) =~= Seq::<char>::empty());
            }
        }
        assert(n >= 0);
        let c = s[i];
        let unit: i64 = if date {
            match c {
                'Y' => 31_536_000,
                'M' => 2_592_000,
                'W' => 604_800,
                'D' => 86_400,
                _ => {
                    return Some(None);
                },
            }
        } else {
            match c {
                'H' => 3_600,
                'M' => 60,
                'S' => 1,
                _ => {
                    return Some(None);
                },
            }
        };
        assert(unit_secs(c, date) == Some(unit as int));
        assert(0 <= n * unit <= i64::MAX * 31_536_000) by (nonlinear_arith)
            requires
                0 <= n <= i64::MAX,
                0 < unit <= 31_536_000,
        ;
        let part: i128 = (n as i128) * (unit as i128);
        if part > MAX_SECS as i128 || total as i128 + part > MAX_SECS as i128 {
            assert(part == n * unit);
            return None;
        }
        total = total + part as i64;
        assert(rest.skip(i - from + 1) =~= s@.skip(i + 1));
        from = i + 1;
    }
}

/// The duration that `s` stands for, `None` inside where it stands for none, and `None`
/// where the duration is too long.
pub fn try_parse_duration(s: &str) -> (r: Option<Option<Duration>>)
    ensures
        r.deep_view() == duration_secs(s@),
        r matches Some(Some(d)) ==> d.valid(),
{
    let v = chars_of(s);
    let all = v.as_slice();
    let negative = all.len() > 0 && all[0] == '-';
    let from: usize = if negative {
        1
    } else {
        0
    };
    let ghost signless = if negative {
        s@.skip(1)
    } else {
        s@
    };
    if from >= all.len() || all[from] != 'P' {
        return Some(None);
    }
    let body = slice_subrange(all, from + 1, all.len());
    assert(body@ =~= signless.skip(1));
    let i: usize = index_of(body, 'T');
    let date = slice_subrange(body, 0, i);
    assert(i < body@.len() ==> date@ =~= body@.take(i as int));
    assert(i == body@.len() ==> date@ =~= body@);
    let a: i64 = match parse_component_group(date, true) {
        None => {
            return None;
        },
        Some(None) => {
            return Some(None);
        },
        Some(Some(a)) => a,
    };
    let mut total: i64 = a;
    if i < body.len() {
        let time = slice_subrange(body, i + 1, body.len());
        assert(time@ =~= body@.skip(i + 1));
        match parse_component_group(time, false) {
            None => {
                return None;
            },
            Some(None) => {
                return Some(None);
            },
            Some(Some(b)) => {
                if a > MAX_SECS - b {
                    return None;
                }
                total = a + b;
            },
        }
    }
    if negative {
        Some(Some(Duration { secs: -total }))
    } else {
        Some(Some(Duration { secs: total }))
    }
}

/// The duration that `s` stands for.
pub fn parse_duration(s: &str) -> (r: Option<Duration>)
    requires
        duration_secs(s@) is Some,
    ensures
        Some(r.deep_view()) == duration_secs(s@),
        r matches Some(d) ==> d.valid(),
{
    match try_parse_duration(s) {
        Some(r) => r,
        None => None,
    }
}

fn push_unit(out: &mut String, n: u64, unit: char)
    ensures
        final(out)@ == old(out)@ + unit_text(n as int, unit),
{
    if n > 0 {
        let t = u64_text(n);
        out.append(t.as_str());
        out.push(unit);
        assert(out@ =~= old(out)@ + dec(n as nat).push(unit));
    } else {
        assert(out@ =~= old(out)@ + Seq::<char>::empty());
    }
}

/// The text of a duration.
pub fn format_duration(d: Duration) -> (r: String)
    requires
        d.valid(),
    ensures
        r@ == duration_text(d.secs as int),
{
    let mut out = String::new();
    if d.secs == 0 {
        out.append("PT0S");
        assert(out@ =~= "PT0S"@);
        return out;
    }
    let negative = d.secs < 0;
    let n: u64 = if negative {
        (-d.secs) as u64
    } else {
        d.secs as u64
    };
    if negative {
        out.append("-P");
        assert(out@ =~= "-P"@);
    } else {
        out.append("P");
        assert(out@ =~= "P"@);
    }
    let rem: u64 = n % 86400;
    push_unit(&mut out, n / 86400, 'D');
    if rem > 0 {
        out.push('T');
        push_unit(&mut out, rem / 3600, 'H');
        push_unit(&mut out, rem % 3600 / 60, 'M');
        push_unit(&mut out, rem % 60, 'S');
    }
    assert(out@ =~= duration_text(d.secs as int));
    out
}

// ---------------------------------------------------------------------------
// What is written reads back
// ---------------------------------------------------------------------------

/// One number with its unit at the front of a group.
pub proof fn group_front(n: int, unit: char, rest: Seq<char>, date: bool, total: int)
    requires
        0 < n <= i64::MAX,
        unit_secs(unit, date) is Some,
        !is_digit(unit),
        secs_fit(n * unit_secs(unit, date)->0),
        secs_fit(total + n * unit_secs(unit, date)->0),
    ensures
        group_secs(unit_text(n, unit) + rest, date, total) == group_secs(
            rest,
            date,
            total + n * unit_secs(unit, date)->0,
        ),
{
    let d = dec(n as nat);
    let s = unit_text(n, unit) + rest;
    dec_reads_back(n as nat);
    assert forall|i: int| 0 <= i < d.len() implies is_digit(#[trigger] s[i]) by {
        assert(s[i] == d[i]);
    }
    assert(s[d.len() as int] == unit);
    digit_run_is(s, d.len() as int);
    assert(s.take(d.len() as int) =~= d);
    assert(is_digit(d[0]));
    assert(s.skip(d.len() as int + 1) =~= rest);
    crate::numbers::parse_int_of_text(n, i64::MIN as int, i64::MAX as int);
}

proof fn group_of_clock(h: int, m: int, s: int)
    requires
        0 <= h < 24,
        0 <= m < 60,
        0 <= s < 60,
    ensures
        group_secs(unit_text(h, 'H') + unit_text(m, 'M') + unit_text(s, 'S'), false, 0) == Some(
            Some(h * 3600 + m * 60 + s),
        ),
{
    let e = Seq::<char>::empty();
    let us = unit_text(s, 'S');
    let um = unit_text(m, 'M');
    let uh = unit_text(h, 'H');
    assert(group_secs(e, false, h * 3600 + m * 60 + s) == Some(Some(h * 3600 + m * 60 + s)));
    assert(us + e =~= us);
    if s > 0 {
        group_front(s, 'S', e, false, h * 3600 + m * 60);
    }
    assert(group_secs(us, false, h * 3600 + m * 60) == Some(Some(h * 3600 + m * 60 + s)));
    if m > 0 {
        group_front(m, 'M', us, false, h * 3600);
    } else {
        assert(um + us =~= us);
    }
    assert(group_secs(um + us, false, h * 3600) == Some(Some(h * 3600 + m * 60 + s)));
    if h > 0 {
        group_front(h, 'H', um + us, false, 0);
    } else {
        assert(uh + (um + us) =~= um + us);
    }
    assert(uh + (um + us) =~= uh + um + us);
}

proof fn zero_reads_back()
    ensures
        duration_secs("PT0S"@) == Some(Some(0int)),
{
    reveal_strlit("PT0S");
    let text = "PT0S"@;
    let body = text.skip(1);
    assert(body =~= seq!['T', '0', 'S']);
    first_index_is(body, 'T', 0);
    let e = Seq::<char>::empty();
    assert(body.take(0) =~= e);
    let t = body.skip(1);
    assert(t =~= seq!['0', 'S']);
    digit_run_is(t, 1);
    assert(t.take(1) =~= dec(0));
    crate::numbers::parse_int_of_text(0, i64::MIN as int, i64::MAX as int);
    assert(t.skip(2) =~= e);
    assert(digit_run(t) == 1 && t[1] == 'S');
    assert(parse_int(t.take(1), i64::MIN as int, i64::MAX as int) == Some(0int));
    assert(unit_secs('S', false) == Some(1int));
    assert(digit_run(e) == 0);
    assert(group_secs(e, false, 0) == Some(Some(0int)));
    assert(group_secs(e, true, 0) == Some(Some(0int)));
    assert(0int * 1int == 0) by (nonlinear_arith);
    assert(secs_fit(0));
    reveal_with_fuel(group_secs, 2);
    assert(group_secs(t, false, 0) == group_secs(t.skip(2), false, 0));
}

proof fn body_reads_back(m: int)
    requires
        0 < m <= MAX_SECS,
    ensures
        body_secs(day_text(m / 86400) + clock_part(m % 86400)) == Some(Some(m)),
{
    let days = m / 86400;
    let rem = m % 86400;
    let dt = day_text(days);
    let ct = clock_part(rem);
    let body = dt + ct;
    dec_reads_back(days as nat);
    assert forall|i: int| 0 <= i < dt.len() implies dt[i] != 'T' by {
        if i < dt.len() - 1 {
            assert(is_digit(dec(days as nat)[i]));
        }
    }
    assert(group_secs(dt, true, 0) == Some(Some(days * 86400))) by {
        assert(dt + Seq::<char>::empty() =~= dt);
        if days > 0 {
            group_front(days, 'D', Seq::empty(), true, 0);
        }
    }
    if rem > 0 {
        let h = rem / 3600;
        let mi = rem % 3600 / 60;
        let s = rem % 60;
        let tail = unit_text(h, 'H') + unit_text(mi, 'M') + unit_text(s, 'S');
        assert(ct =~= seq!['T'] + tail);
        assert forall|i: int| 0 <= i < dt.len() implies body[i] != 'T' by {
            assert(body[i] == dt[i]);
        }
        assert(body[dt.len() as int] == 'T');
        first_index_is(body, 'T', dt.len() as int);
        assert(body.take(dt.len() as int) =~= dt);
        assert(body.skip(dt.len() as int + 1) =~= tail);
        group_of_clock(h, mi, s);
        assert(h * 3600 + mi * 60 + s == rem);
    } else {
        assert(body =~= dt);
        first_index_is(body, 'T', dt.len() as int);
    }
}

/// Reading the text of a duration gives that duration.
pub proof fn duration_text_reads_back(n: int)
    requires
        secs_fit(n),
    ensures
        duration_secs(duration_text(n)) == Some(Some(n)),
{
    let text = duration_text(n);
    if n == 0 {
        zero_reads_back();
    } else if n > 0 {
        reveal_strlit("P");
        body_reads_back(n);
        assert(text.skip(1) =~= day_text(n / 86400) + clock_part(n % 86400));
        assert(text[0] == 'P');
    } else {
        reveal_strlit("-P");
        body_reads_back(-n);
        assert(text[0] == '-');
        assert(text.skip(1)[0] == 'P');
        assert(text.skip(1).skip(1) =~= day_text(-n / 86400) + clock_part(-n % 86400));
    }
}

} // verus!
