//! What the calendar, texts and lengths of time are built on.

use vstd::prelude::*;
use vstd::string::*;
use crate::calendar::{
    date_of_exists, date_of_num, days_before_month, days_before_year, leap_year, month_len,
    NaiveDate, NaiveDateTime,
};
use crate::duration::{
    body_secs, duration_secs, group_front, group_secs, secs_fit, unit_secs, unit_text,
};
use crate::jscontact::AnniversaryDateV;
use crate::numbers::{dec, dec_reads_back};
use crate::regions::{region_of, region_word, region_words_read_back, GermanRegion};
use crate::rrule_laws::join_front;
use crate::text::{
    first_index, first_index_bounds, first_index_is, is_digit, is_white, join, split, text_less,
    trim, trim_end, trim_start,
};
use crate::tz::{converted, utc_of, zone_offset};
use crate::view::{toggled, ViewParamsV};

verus! {

// ---------------------------------------------------------------------------
// The calendar
// ---------------------------------------------------------------------------

/// Four years have one day more than four times 365, but where a century ends without ending four
/// of them; and the calendar comes round every 400 years, on the same days of the week.
#[verifier::spinoff_prover]
#[verifier::rlimit(60)]
pub proof fn years_have_their_days(y: int)
    ensures
        days_before_year(y + 400) == days_before_year(y) + 146097,
        (days_before_year(y + 400) - days_before_year(y)) % 7 == 0,
        y % 100 != 0 && (y % 4 == 0) ==> days_before_year(y + 1) == days_before_year(y) + 366,
        y % 4 != 0 ==> days_before_year(y + 1) == days_before_year(y) + 365,
        y % 100 == 0 && y % 400 != 0 ==> days_before_year(y + 1) == days_before_year(y) + 365,
        y % 400 == 0 ==> days_before_year(y + 1) == days_before_year(y) + 366,
        month_len(y, 1) + month_len(y, 2) + month_len(y, 3) + month_len(y, 4) + month_len(y, 5)
            + month_len(y, 6) + month_len(y, 7) + month_len(y, 8) + month_len(y, 9) + month_len(
            y,
            10,
        ) + month_len(y, 11) + month_len(y, 12) == days_before_year(y + 1) - days_before_year(y),
{
}

/// A date comes again 400 years later on the same day of the week.
#[verifier::spinoff_prover]
#[verifier::rlimit(60)]
pub proof fn weekdays_come_round(a: NaiveDate, b: NaiveDate)
    requires
        b.year == a.year + 400,
        b.month == a.month,
        b.day == a.day,
    ensures
        b.num() == a.num() + 146097,
        b.weekday_num() == a.weekday_num(),
{
    cycle_has_its_days(a.year as int);
    months_come_round(a.year as int, a.month as int);
    cycle_is_whole_weeks(a.num() - 1);
}

proof fn cycle_has_its_days(y: int)
    ensures
        days_before_year(y + 400) == days_before_year(y) + 146097,
{
}

proof fn cycle_is_whole_weeks(x: int)
    ensures
        (x + 146097) % 7 == x % 7,
{
}

proof fn months_come_round(y: int, m: int)
    ensures
        days_before_month(y + 400, m) == days_before_month(y, m),
    decreases m,
{
    if m > 1 {
        months_come_round(y, m - 1);
        assert(leap_year(y + 400) == leap_year(y));
    }
}

/// A time that was converted from one zone to another is the instant of the first on the clock of
/// the second.
#[verifier::spinoff_prover]
#[verifier::rlimit(60)]
pub proof fn conversion_goes_through_utc(
    t: NaiveDateTime,
    from: Seq<char>,
    to: Seq<char>,
    u: NaiveDateTime,
)
    requires
        from != to,
        utc_of(from, t) == Some(u),
        u.valid(),
        converted(t, Some(from), to) is Some,
    ensures
        converted(t, Some(from), to)->0.num() == u.num() + zone_offset(to, u),
{
    let n = u.num() + zone_offset(to, u);
    date_of_num(u.date);
    date_of_exists(n / 86400);
}

// ---------------------------------------------------------------------------
// Texts
// ---------------------------------------------------------------------------

/// The pieces of a text, put together again, give the text; and none of them holds what it was
/// split at.
#[verifier::spinoff_prover]
#[verifier::rlimit(60)]
pub proof fn pieces_make_the_text(s: Seq<char>, c: char)
    ensures
        split(s, c).len() >= 1,
        join(split(s, c), seq![c]) == s,
        forall|i: int, j: int|
            0 <= i < split(s, c).len() && 0 <= j < (#[trigger] split(s, c)[i]).len() ==> (
            #[trigger] split(s, c)[i][j]) != c,
    decreases s.len(),
{
    first_index_bounds(s, c);
    let i = first_index(s, c);
    if i < s.len() {
        let rest = s.skip(i + 1);
        pieces_make_the_text(rest, c);
        let parts = split(s, c);
        assert(parts.skip(1) =~= split(rest, c));
        join_front(parts, seq![c]);
        assert(s =~= s.take(i) + seq![c] + rest);
        assert forall|k: int, j: int|
            0 <= k < parts.len() && 0 <= j < (#[trigger] parts[k]).len() implies (
        #[trigger] parts[k][j]) != c by {
            if k > 0 {
                assert(parts[k] == split(rest, c)[k - 1]);
                assert(split(rest, c)[k - 1][j] != c);
            }
        }
    } else {
        assert(split(s, c) =~= seq![s]);
        reveal_with_fuel(join, 2);
        assert(join(split(s, c), seq![c]) =~= s);
    }
}

proof fn start_is_trimmed(s: Seq<char>) -> (a: int)
    ensures
        0 <= a <= s.len(),
        trim_start(s) == s.skip(a),
        forall|i: int| 0 <= i < a ==> is_white(#[trigger] s[i]),
        a < s.len() ==> !is_white(s[a]),
    decreases s.len(),
{
    if s.len() > 0 && is_white(s[0]) {
        let t = s.skip(1);
        let b = start_is_trimmed(t);
        assert(t.skip(b) =~= s.skip(b + 1));
        assert forall|i: int| 0 <= i < b + 1 implies is_white(#[trigger] s[i]) by {
            if i > 0 {
                assert(t[i - 1] == s[i]);
            }
        }
        if b < t.len() {
            assert(t[b] == s[b + 1]);
        }
        b + 1
    } else {
        assert(s.skip(0) =~= s);
        0
    }
}

proof fn end_is_trimmed(s: Seq<char>) -> (b: int)
    ensures
        0 <= b <= s.len(),
        trim_end(s) == s.take(b),
        forall|i: int| b <= i < s.len() ==> is_white(#[trigger] s[i]),
        b > 0 ==> !is_white(s[b - 1]),
    decreases s.len(),
{
    if s.len() > 0 && is_white(s.last()) {
        let t = s.drop_last();
        let b = end_is_trimmed(t);
        assert(t.take(b) =~= s.take(b));
        assert forall|i: int| b <= i < s.len() implies is_white(#[trigger] s[i]) by {
            if i < t.len() {
                assert(t[i] == s[i]);
            }
        }
        if b > 0 {
            assert(t[b - 1] == s[b - 1]);
        }
        b
    } else {
        assert(s.take(s.len() as int) =~= s);
        s.len() as int
    }
}

/// What is left of a text without the blanks around it is its part from the first character that
/// is no blank to the last; and nothing of a text of blanks.
pub proof fn blanks_are_cut_off(s: Seq<char>) -> (r: (int, int))
    ensures
        0 <= r.0 <= r.1 <= s.len(),
        trim(s) == s.subrange(r.0, r.1),
        forall|i: int| 0 <= i < r.0 ==> is_white(#[trigger] s[i]),
        forall|i: int| r.1 <= i < s.len() ==> is_white(#[trigger] s[i]),
        r.0 < r.1 ==> !is_white(s[r.0]) && !is_white(s[r.1 - 1]),
{
    let a = start_is_trimmed(s);
    let t = s.skip(a);
    let b = end_is_trimmed(t);
    assert(t.take(b) =~= s.subrange(a, a + b));
    assert forall|i: int| a + b <= i < s.len() implies is_white(#[trigger] s[i]) by {
        assert(t[i - a] == s[i]);
    }
    if b > 0 {
        assert(t[b - 1] == s[a + b - 1]);
    }
    (a, a + b)
}

// ---------------------------------------------------------------------------
// Lengths of time
// ---------------------------------------------------------------------------

proof fn date_unit_reads(n: int, unit: char, u: int, secs: int)
    requires
        0 < n <= i64::MAX,
        unit == 'W' || unit == 'D' || unit == 'M' || unit == 'Y',
        unit_secs(unit, true) == Some(u),
        secs == n * u,
        secs_fit(secs),
    ensures
        duration_secs(seq!['P'] + dec(n as nat).push(unit)) == Some(Some(secs)),
        duration_secs(seq!['-', 'P'] + dec(n as nat).push(unit)) == Some(Some(-secs)),
{
    let body = dec(n as nat).push(unit);
    let e = Seq::<char>::empty();
    dec_reads_back(n as nat);
    assert forall|i: int| 0 <= i < body.len() implies body[i] != 'T' by {
        if i < body.len() - 1 {
            assert(is_digit(dec(n as nat)[i]));
        }
    }
    first_index_is(body, 'T', body.len() as int);
    group_front(n, unit, e, true, 0);
    assert(unit_text(n, unit) + e =~= body);
    assert(body_secs(body) == Some(Some(secs)));
    assert((seq!['P'] + body).skip(1) =~= body);
    assert((seq!['-', 'P'] + body).skip(1) =~= seq!['P'] + body);
}

proof fn time_unit_reads(n: int, unit: char, u: int, secs: int)
    requires
        0 < n <= i64::MAX,
        unit == 'H' || unit == 'M' || unit == 'S',
        unit_secs(unit, false) == Some(u),
        secs == n * u,
        secs_fit(secs),
    ensures
        duration_secs(seq!['P', 'T'] + dec(n as nat).push(unit)) == Some(Some(secs)),
{
    let clock = dec(n as nat).push(unit);
    let body = seq!['T'] + clock;
    let e = Seq::<char>::empty();
    first_index_is(body, 'T', 0);
    assert(body.take(0) =~= e);
    assert(body.skip(1) =~= clock);
    group_front(n, unit, e, false, 0);
    assert(unit_text(n, unit) + e =~= clock);
    assert(group_secs(e, true, 0) == Some(Some(0int)));
    assert((seq!['P', 'T'] + clock).skip(1) =~= body);
}

/// A week is seven days and a day 24 hours; an hour is sixty minutes, and a minute sixty seconds.
/// A year counts as 365 days and a month as thirty. A sign turns the length round.
pub proof fn units_of_time(n: int)
    requires
        0 < n <= 1_000_000,
    ensures
        duration_secs(seq!['P', 'T'] + dec(n as nat).push('S')) == Some(Some(n)),
        duration_secs(seq!['P', 'T'] + dec(n as nat).push('M')) == Some(Some(60 * n)),
        duration_secs(seq!['P', 'T'] + dec(n as nat).push('H')) == Some(Some(3600 * n)),
        duration_secs(seq!['P'] + dec(n as nat).push('D')) == Some(Some(86400 * n)),
        duration_secs(seq!['P'] + dec(n as nat).push('W')) == Some(Some(604_800 * n)),
        duration_secs(seq!['P'] + dec(n as nat).push('M')) == Some(Some(2_592_000 * n)),
        duration_secs(seq!['P'] + dec(n as nat).push('Y')) == Some(Some(31_536_000 * n)),
        duration_secs(seq!['-', 'P'] + dec(n as nat).push('D')) == Some(Some(-86400 * n)),
{
    time_unit_reads(n, 'S', 1, n);
    time_unit_reads(n, 'M', 60, 60 * n);
    time_unit_reads(n, 'H', 3600, 3600 * n);
    date_unit_reads(n, 'D', 86400, 86400 * n);
    date_unit_reads(n, 'W', 604_800, 604_800 * n);
    date_unit_reads(n, 'M', 2_592_000, 2_592_000 * n);
    date_unit_reads(n, 'Y', 31_536_000, 31_536_000 * n);
}

// ---------------------------------------------------------------------------
// Names and links
// ---------------------------------------------------------------------------

/// Each state is asked for by its own name.
pub proof fn states_have_names(r: GermanRegion)
    ensures
        region_of(region_word(r)) == Some(r),
        r is BadenWuerttemberg ==> region_word(r) == "BadenWuerttemberg"@,
        r is Bayern ==> region_word(r) == "Bayern"@,
        r is Berlin ==> region_word(r) == "Berlin"@,
        r is Brandenburg ==> region_word(r) == "Brandenburg"@,
        r is Bremen ==> region_word(r) == "Bremen"@,
        r is Hamburg ==> region_word(r) == "Hamburg"@,
        r is Hessen ==> region_word(r) == "Hessen"@,
        r is MechlenburgVorpommern ==> region_word(r) == "MechlenburgVorpommern"@,
        r is Niedersachsen ==> region_word(r) == "Niedersachsen"@,
        r is NordrheinWestfalen ==> region_word(r) == "NordrheinWestfalen"@,
        r is RheinlandPfalz ==> region_word(r) == "RheinlandPfalz"@,
        r is Saarland ==> region_word(r) == "Saarland"@,
        r is Sachsen ==> region_word(r) == "Sachsen"@,
        r is SachsenAnhalt ==> region_word(r) == "SachsenAnhalt"@,
        r is SchleswigHolstein ==> region_word(r) == "SchleswigHolstein"@,
        r is Thueringen ==> region_word(r) == "Thueringen"@,
{
    region_words_read_back(r);
}

/// The link that switches a calendar leads to the same page with that calendar switched.
pub proof fn switch_leads_to_same_page(p: ViewParamsV, q: ViewParamsV, id: Seq<char>)
    requires
        q.view == p.view,
        q.date == p.date,
        q.q == p.q,
        q.all_calendar_ids == p.all_calendar_ids,
        q.visible == toggled(p.visible, id),
    ensures
        p.toggle_href(id) == "/app?"@ + q.query_string(p.view, p.date),
{
}

/// An anniversary is on the day and month that it says, and in the year where it says one; without
/// a month or a day it is on none.
pub proof fn anniversary_says_its_day(year: Option<i32>, month: Option<u32>, day: Option<u32>)
    ensures
        ({
            let parts = (AnniversaryDateV::PartialDate { year, month, day }).parts();
            &&& month is Some && day is Some ==> parts == Some((month->0, day->0, year))
            &&& month is None || day is None ==> parts is None
        }),
{
}

/// Texts are ordered by the first character in which they differ; the beginning of a text comes
/// before it.
pub proof fn texts_are_ordered(a: Seq<char>, b: Seq<char>, k: int)
    requires
        0 <= k <= a.len(),
        k <= b.len(),
        forall|i: int| 0 <= i < k ==> a[i] == b[i],
    ensures
        k == a.len() && k < b.len() ==> text_less(a, b),
        k < a.len() && k < b.len() && a[k] < b[k] ==> text_less(a, b),
        k == b.len() ==> !text_less(a, b),
        k < a.len() && k < b.len() && a[k] > b[k] ==> !text_less(a, b),
    decreases k,
{
    if k > 0 {
        let x = a.skip(1);
        let y = b.skip(1);
        assert forall|i: int| 0 <= i < k - 1 implies x[i] == y[i] by {
            assert(x[i] == a[i + 1] && y[i] == b[i + 1]);
        }
        texts_are_ordered(x, y, k - 1);
        assert(a[0] == b[0]);
    }
}

} // verus!
