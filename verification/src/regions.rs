//! The German federal states and their public holidays.

use vstd::multiset::Multiset;
use vstd::prelude::*;
use vstd::string::*;
use chrono::Datelike;
use crate::calendar::{date_less, NaiveDate, MAX_YEAR, MIN_YEAR};
use crate::collections::CloneView;
use crate::text::str_eq;

verus! {

/// A German federal state.
#[derive(Debug, Clone, Copy, PartialEq, Eq, Structural)]
pub enum GermanRegion {
    BadenWuerttemberg,
    Bayern,
    Berlin,
    Brandenburg,
    Bremen,
    Hamburg,
    Hessen,
    MechlenburgVorpommern,
    Niedersachsen,
    NordrheinWestfalen,
    RheinlandPfalz,
    Saarland,
    Sachsen,
    SachsenAnhalt,
    SchleswigHolstein,
    Thueringen,
}

impl DeepView for GermanRegion {
    type V = GermanRegion;

    open spec fn deep_view(&self) -> GermanRegion {
        *self
    }
}

impl CloneView for GermanRegion {
    fn clone_view(&self) -> (r: Self) {
        *self
    }
}

/// The name by which a state is configured.
pub open spec fn region_word(r: GermanRegion) -> Seq<char> {
    match r {
        GermanRegion::BadenWuerttemberg => "BadenWuerttemberg"@,
        GermanRegion::Bayern => "Bayern"@,
        GermanRegion::Berlin => "Berlin"@,
        GermanRegion::Brandenburg => "Brandenburg"@,
        GermanRegion::Bremen => "Bremen"@,
        GermanRegion::Hamburg => "Hamburg"@,
        GermanRegion::Hessen => "Hessen"@,
        GermanRegion::MechlenburgVorpommern => "MechlenburgVorpommern"@,
        GermanRegion::Niedersachsen => "Niedersachsen"@,
        GermanRegion::NordrheinWestfalen => "NordrheinWestfalen"@,
        GermanRegion::RheinlandPfalz => "RheinlandPfalz"@,
        GermanRegion::Saarland => "Saarland"@,
        GermanRegion::Sachsen => "Sachsen"@,
        GermanRegion::SachsenAnhalt => "SachsenAnhalt"@,
        GermanRegion::SchleswigHolstein => "SchleswigHolstein"@,
        GermanRegion::Thueringen => "Thueringen"@,
    }
}

/// The state with a name, if any.
pub open spec fn region_of(s: Seq<char>) -> Option<GermanRegion> {
    if s == "BadenWuerttemberg"@ {
        Some(GermanRegion::BadenWuerttemberg)
    } else if s == "Bayern"@ {
        Some(GermanRegion::Bayern)
    } else if s == "Berlin"@ {
        Some(GermanRegion::Berlin)
    } else if s == "Brandenburg"@ {
        Some(GermanRegion::Brandenburg)
    } else if s == "Bremen"@ {
        Some(GermanRegion::Bremen)
    } else if s == "Hamburg"@ {
        Some(GermanRegion::Hamburg)
    } else if s == "Hessen"@ {
        Some(GermanRegion::Hessen)
    } else if s == "MechlenburgVorpommern"@ {
        Some(GermanRegion::MechlenburgVorpommern)
    } else if s == "Niedersachsen"@ {
        Some(GermanRegion::Niedersachsen)
    } else if s == "NordrheinWestfalen"@ {
        Some(GermanRegion::NordrheinWestfalen)
    } else if s == "RheinlandPfalz"@ {
        Some(GermanRegion::RheinlandPfalz)
    } else if s == "Saarland"@ {
        Some(GermanRegion::Saarland)
    } else if s == "Sachsen"@ {
        Some(GermanRegion::Sachsen)
    } else if s == "SachsenAnhalt"@ {
        Some(GermanRegion::SachsenAnhalt)
    } else if s == "SchleswigHolstein"@ {
        Some(GermanRegion::SchleswigHolstein)
    } else if s == "Thueringen"@ {
        Some(GermanRegion::Thueringen)
    } else {
        None
    }
}

/// The name by which people know a state.
pub open spec fn region_label(r: GermanRegion) -> Seq<char> {
    match r {
        GermanRegion::BadenWuerttemberg => "Baden-W\u{fc}rttemberg"@,
        GermanRegion::Bayern => "Bavaria (Bayern)"@,
        GermanRegion::Berlin => "Berlin"@,
        GermanRegion::Brandenburg => "Brandenburg"@,
        GermanRegion::Bremen => "Bremen"@,
        GermanRegion::Hamburg => "Hamburg"@,
        GermanRegion::Hessen => "Hesse (Hessen)"@,
        GermanRegion::MechlenburgVorpommern => "Mecklenburg-Vorpommern"@,
        GermanRegion::Niedersachsen => "Lower Saxony (Niedersachsen)"@,
        GermanRegion::NordrheinWestfalen => "North Rhine-Westphalia (NRW)"@,
        GermanRegion::RheinlandPfalz => "Rhineland-Palatinate"@,
        GermanRegion::Saarland => "Saarland"@,
        GermanRegion::Sachsen => "Saxony (Sachsen)"@,
        GermanRegion::SachsenAnhalt => "Saxony-Anhalt"@,
        GermanRegion::SchleswigHolstein => "Schleswig-Holstein"@,
        GermanRegion::Thueringen => "Thuringia (Th\u{fc}ringen)"@,
    }
}

/// The place of a state in the list of them all.
pub open spec fn region_number(r: GermanRegion) -> int {
    match r {
        GermanRegion::BadenWuerttemberg => 0,
        GermanRegion::Bayern => 1,
        GermanRegion::Berlin => 2,
        GermanRegion::Brandenburg => 3,
        GermanRegion::Bremen => 4,
        GermanRegion::Hamburg => 5,
        GermanRegion::Hessen => 6,
        GermanRegion::MechlenburgVorpommern => 7,
        GermanRegion::Niedersachsen => 8,
        GermanRegion::NordrheinWestfalen => 9,
        GermanRegion::RheinlandPfalz => 10,
        GermanRegion::Saarland => 11,
        GermanRegion::Sachsen => 12,
        GermanRegion::SachsenAnhalt => 13,
        GermanRegion::SchleswigHolstein => 14,
        GermanRegion::Thueringen => 15,
    }
}

/// The state at a place in that list.
pub open spec fn region_at(i: int) -> GermanRegion {
    if i == 0 {
        GermanRegion::BadenWuerttemberg
    } else if i == 1 {
        GermanRegion::Bayern
    } else if i == 2 {
        GermanRegion::Berlin
    } else if i == 3 {
        GermanRegion::Brandenburg
    } else if i == 4 {
        GermanRegion::Bremen
    } else if i == 5 {
        GermanRegion::Hamburg
    } else if i == 6 {
        GermanRegion::Hessen
    } else if i == 7 {
        GermanRegion::MechlenburgVorpommern
    } else if i == 8 {
        GermanRegion::Niedersachsen
    } else if i == 9 {
        GermanRegion::NordrheinWestfalen
    } else if i == 10 {
        GermanRegion::RheinlandPfalz
    } else if i == 11 {
        GermanRegion::Saarland
    } else if i == 12 {
        GermanRegion::Sachsen
    } else if i == 13 {
        GermanRegion::SachsenAnhalt
    } else if i == 14 {
        GermanRegion::SchleswigHolstein
    } else {
        GermanRegion::Thueringen
    }
}

/// Reads the name of a state. Any other text is none: there is no default state.
pub fn parse_german_region(s: &str) -> (r: Option<GermanRegion>)
    ensures
        r == region_of(s@),
{
    if str_eq(s, "BadenWuerttemberg") {
        Some(GermanRegion::BadenWuerttemberg)
    } else if str_eq(s, "Bayern") {
        Some(GermanRegion::Bayern)
    } else if str_eq(s, "Berlin") {
        Some(GermanRegion::Berlin)
    } else if str_eq(s, "Brandenburg") {
        Some(GermanRegion::Brandenburg)
    } else if str_eq(s, "Bremen") {
        Some(GermanRegion::Bremen)
    } else if str_eq(s, "Hamburg") {
        Some(GermanRegion::Hamburg)
    } else if str_eq(s, "Hessen") {
        Some(GermanRegion::Hessen)
    } else if str_eq(s, "MechlenburgVorpommern") {
        Some(GermanRegion::MechlenburgVorpommern)
    } else if str_eq(s, "Niedersachsen") {
        Some(GermanRegion::Niedersachsen)
    } else if str_eq(s, "NordrheinWestfalen") {
        Some(GermanRegion::NordrheinWestfalen)
    } else if str_eq(s, "RheinlandPfalz") {
        Some(GermanRegion::RheinlandPfalz)
    } else if str_eq(s, "Saarland") {
        Some(GermanRegion::Saarland)
    } else if str_eq(s, "Sachsen") {
        Some(GermanRegion::Sachsen)
    } else if str_eq(s, "SachsenAnhalt") {
        Some(GermanRegion::SachsenAnhalt)
    } else if str_eq(s, "SchleswigHolstein") {
        Some(GermanRegion::SchleswigHolstein)
    } else if str_eq(s, "Thueringen") {
        Some(GermanRegion::Thueringen)
    } else {
        None
    }
}

/// The name by which a state is configured.
pub fn german_region_name(region: GermanRegion) -> (r: &'static str)
    ensures
        r@ == region_word(region),
{
    match region {
        GermanRegion::BadenWuerttemberg => "BadenWuerttemberg",
        GermanRegion::Bayern => "Bayern",
        GermanRegion::Berlin => "Berlin",
        GermanRegion::Brandenburg => "Brandenburg",
        GermanRegion::Bremen => "Bremen",
        GermanRegion::Hamburg => "Hamburg",
        GermanRegion::Hessen => "Hessen",
        GermanRegion::MechlenburgVorpommern => "MechlenburgVorpommern",
        GermanRegion::Niedersachsen => "Niedersachsen",
        GermanRegion::NordrheinWestfalen => "NordrheinWestfalen",
        GermanRegion::RheinlandPfalz => "RheinlandPfalz",
        GermanRegion::Saarland => "Saarland",
        GermanRegion::Sachsen => "Sachsen",
        GermanRegion::SachsenAnhalt => "SachsenAnhalt",
        GermanRegion::SchleswigHolstein => "SchleswigHolstein",
        GermanRegion::Thueringen => "Thueringen",
    }
}

/// The name by which people know a state.
pub fn german_region_label(region: GermanRegion) -> (r: &'static str)
    ensures
        r@ == region_label(region),
{
    match region {
        GermanRegion::BadenWuerttemberg => "Baden-W\u{fc}rttemberg",
        GermanRegion::Bayern => "Bavaria (Bayern)",
        GermanRegion::Berlin => "Berlin",
        GermanRegion::Brandenburg => "Brandenburg",
        GermanRegion::Bremen => "Bremen",
        GermanRegion::Hamburg => "Hamburg",
        GermanRegion::Hessen => "Hesse (Hessen)",
        GermanRegion::MechlenburgVorpommern => "Mecklenburg-Vorpommern",
        GermanRegion::Niedersachsen => "Lower Saxony (Niedersachsen)",
        GermanRegion::NordrheinWestfalen => "North Rhine-Westphalia (NRW)",
        GermanRegion::RheinlandPfalz => "Rhineland-Palatinate",
        GermanRegion::Saarland => "Saarland",
        GermanRegion::Sachsen => "Saxony (Sachsen)",
        GermanRegion::SachsenAnhalt => "Saxony-Anhalt",
        GermanRegion::SchleswigHolstein => "Schleswig-Holstein",
        GermanRegion::Thueringen => "Thuringia (Th\u{fc}ringen)",
    }
}

fn number_of_region(region: GermanRegion) -> (r: usize)
    ensures
        r == region_number(region),
{
    match region {
        GermanRegion::BadenWuerttemberg => 0,
        GermanRegion::Bayern => 1,
        GermanRegion::Berlin => 2,
        GermanRegion::Brandenburg => 3,
        GermanRegion::Bremen => 4,
        GermanRegion::Hamburg => 5,
        GermanRegion::Hessen => 6,
        GermanRegion::MechlenburgVorpommern => 7,
        GermanRegion::Niedersachsen => 8,
        GermanRegion::NordrheinWestfalen => 9,
        GermanRegion::RheinlandPfalz => 10,
        GermanRegion::Saarland => 11,
        GermanRegion::Sachsen => 12,
        GermanRegion::SachsenAnhalt => 13,
        GermanRegion::SchleswigHolstein => 14,
        GermanRegion::Thueringen => 15,
    }
}

pub(crate) fn region_with_number(i: usize) -> (r: GermanRegion)
    ensures
        r == region_at(i as int),
{
    if i == 0 {
        GermanRegion::BadenWuerttemberg
    } else if i == 1 {
        GermanRegion::Bayern
    } else if i == 2 {
        GermanRegion::Berlin
    } else if i == 3 {
        GermanRegion::Brandenburg
    } else if i == 4 {
        GermanRegion::Bremen
    } else if i == 5 {
        GermanRegion::Hamburg
    } else if i == 6 {
        GermanRegion::Hessen
    } else if i == 7 {
        GermanRegion::MechlenburgVorpommern
    } else if i == 8 {
        GermanRegion::Niedersachsen
    } else if i == 9 {
        GermanRegion::NordrheinWestfalen
    } else if i == 10 {
        GermanRegion::RheinlandPfalz
    } else if i == 11 {
        GermanRegion::Saarland
    } else if i == 12 {
        GermanRegion::Sachsen
    } else if i == 13 {
        GermanRegion::SachsenAnhalt
    } else if i == 14 {
        GermanRegion::SchleswigHolstein
    } else {
        GermanRegion::Thueringen
    }
}

/// The name of a state reads back as that state.
pub proof fn region_words_read_back(r: GermanRegion)
    ensures
        region_of(region_word(r)) == Some(r),
{
    reveal_strlit("BadenWuerttemberg");
    reveal_strlit("Bayern");
    reveal_strlit("Berlin");
    reveal_strlit("Brandenburg");
    reveal_strlit("Bremen");
    reveal_strlit("Hamburg");
    reveal_strlit("Hessen");
    reveal_strlit("MechlenburgVorpommern");
    reveal_strlit("Niedersachsen");
    reveal_strlit("NordrheinWestfalen");
    reveal_strlit("RheinlandPfalz");
    reveal_strlit("Saarland");
    reveal_strlit("Sachsen");
    reveal_strlit("SachsenAnhalt");
    reveal_strlit("SchleswigHolstein");
    reveal_strlit("Thueringen");
    match r {
        GermanRegion::BadenWuerttemberg => {
        },
        GermanRegion::Bayern => {
            assert("BadenWuerttemberg"@.len() != "Bayern"@.len());
        },
        GermanRegion::Berlin => {
            assert("BadenWuerttemberg"@.len() != "Berlin"@.len());
            assert("Bayern"@[1] != "Berlin"@[1]);
        },
        GermanRegion::Brandenburg => {
            assert("BadenWuerttemberg"@.len() != "Brandenburg"@.len());
            assert("Bayern"@.len() != "Brandenburg"@.len());
            assert("Berlin"@.len() != "Brandenburg"@.len());
        },
        GermanRegion::Bremen => {
            assert("BadenWuerttemberg"@.len() != "Bremen"@.len());
            assert("Bayern"@[1] != "Bremen"@[1]);
            assert("Berlin"@[1] != "Bremen"@[1]);
            assert("Brandenburg"@.len() != "Bremen"@.len());
        },
        GermanRegion::Hamburg => {
            assert("BadenWuerttemberg"@.len() != "Hamburg"@.len());
            assert("Bayern"@.len() != "Hamburg"@.len());
            assert("Berlin"@.len() != "Hamburg"@.len());
            assert("Brandenburg"@.len() != "Hamburg"@.len());
            assert("Bremen"@.len() != "Hamburg"@.len());
        },
        GermanRegion::Hessen => {
            assert("BadenWuerttemberg"@.len() != "Hessen"@.len());
            assert("Bayern"@[0] != "Hessen"@[0]);
            assert("Berlin"@[0] != "Hessen"@[0]);
            assert("Brandenburg"@.len() != "Hessen"@.len());
            assert("Bremen"@[0] != "Hessen"@[0]);
            assert("Hamburg"@.len() != "Hessen"@.len());
        },
        GermanRegion::MechlenburgVorpommern => {
            assert("BadenWuerttemberg"@.len() != "MechlenburgVorpommern"@.len());
            assert("Bayern"@.len() != "MechlenburgVorpommern"@.len());
            assert("Berlin"@.len() != "MechlenburgVorpommern"@.len());
            assert("Brandenburg"@.len() != "MechlenburgVorpommern"@.len());
            assert("Bremen"@.len() != "MechlenburgVorpommern"@.len());
            assert("Hamburg"@.len() != "MechlenburgVorpommern"@.len());
            assert("Hessen"@.len() != "MechlenburgVorpommern"@.len());
        },
        GermanRegion::Niedersachsen => {
            assert("BadenWuerttemberg"@.len() != "Niedersachsen"@.len());
            assert("Bayern"@.len() != "Niedersachsen"@.len());
            assert("Berlin"@.len() != "Niedersachsen"@.len());
            assert("Brandenburg"@.len() != "Niedersachsen"@.len());
            assert("Bremen"@.len() != "Niedersachsen"@.len());
            assert("Hamburg"@.len() != "Niedersachsen"@.len());
            assert("Hessen"@.len() != "Niedersachsen"@.len());
            assert("MechlenburgVorpommern"@.len() != "Niedersachsen"@.len());
        },
        GermanRegion::NordrheinWestfalen => {
            assert("BadenWuerttemberg"@.len() != "NordrheinWestfalen"@.len());
            assert("Bayern"@.len() != "NordrheinWestfalen"@.len());
            assert("Berlin"@.len() != "NordrheinWestfalen"@.len());
            assert("Brandenburg"@.len() != "NordrheinWestfalen"@.len());
            assert("Bremen"@.len() != "NordrheinWestfalen"@.len());
            assert("Hamburg"@.len() != "NordrheinWestfalen"@.len());
            assert("Hessen"@.len() != "NordrheinWestfalen"@.len());
            assert("MechlenburgVorpommern"@.len() != "NordrheinWestfalen"@.len());
            assert("Niedersachsen"@.len() != "NordrheinWestfalen"@.len());
        },
        GermanRegion::RheinlandPfalz => {
            assert("BadenWuerttemberg"@.len() != "RheinlandPfalz"@.len());
            assert("Bayern"@.len() != "RheinlandPfalz"@.len());
            assert("Berlin"@.len() != "RheinlandPfalz"@.len());
            assert("Brandenburg"@.len() != "RheinlandPfalz"@.len());
            assert("Bremen"@.len() != "RheinlandPfalz"@.len());
            assert("Hamburg"@.len() != "RheinlandPfalz"@.len());
            assert("Hessen"@.len() != "RheinlandPfalz"@.len());
            assert("MechlenburgVorpommern"@.len() != "RheinlandPfalz"@.len());
            assert("Niedersachsen"@.len() != "RheinlandPfalz"@.len());
            assert("NordrheinWestfalen"@.len() != "RheinlandPfalz"@.len());
        },
        GermanRegion::Saarland => {
            assert("BadenWuerttemberg"@.len() != "Saarland"@.len());
            assert("Bayern"@.len() != "Saarland"@.len());
            assert("Berlin"@.len() != "Saarland"@.len());
            assert("Brandenburg"@.len() != "Saarland"@.len());
            assert("Bremen"@.len() != "Saarland"@.len());
            assert("Hamburg"@.len() != "Saarland"@.len());
            assert("Hessen"@.len() != "Saarland"@.len());
            assert("MechlenburgVorpommern"@.len() != "Saarland"@.len());
            assert("Niedersachsen"@.len() != "Saarland"@.len());
            assert("NordrheinWestfalen"@.len() != "Saarland"@.len());
            assert("RheinlandPfalz"@.len() != "Saarland"@.len());
        },
        GermanRegion::Sachsen => {
            assert("BadenWuerttemberg"@.len() != "Sachsen"@.len());
            assert("Bayern"@.len() != "Sachsen"@.len());
            assert("Berlin"@.len() != "Sachsen"@.len());
            assert("Brandenburg"@.len() != "Sachsen"@.len());
            assert("Bremen"@.len() != "Sachsen"@.len());
            assert("Hamburg"@[0] != "Sachsen"@[0]);
            assert("Hessen"@.len() != "Sachsen"@.len());
            assert("MechlenburgVorpommern"@.len() != "Sachsen"@.len());
            assert("Niedersachsen"@.len() != "Sachsen"@.len());
            assert("NordrheinWestfalen"@.len() != "Sachsen"@.len());
            assert("RheinlandPfalz"@.len() != "Sachsen"@.len());
            assert("Saarland"@.len() != "Sachsen"@.len());
        },
        GermanRegion::SachsenAnhalt => {
            assert("BadenWuerttemberg"@.len() != "SachsenAnhalt"@.len());
            assert("Bayern"@.len() != "SachsenAnhalt"@.len());
            assert("Berlin"@.len() != "SachsenAnhalt"@.len());
            assert("Brandenburg"@.len() != "SachsenAnhalt"@.len());
            assert("Bremen"@.len() != "SachsenAnhalt"@.len());
            assert("Hamburg"@.len() != "SachsenAnhalt"@.len());
            assert("Hessen"@.len() != "SachsenAnhalt"@.len());
            assert("MechlenburgVorpommern"@.len() != "SachsenAnhalt"@.len());
            assert("Niedersachsen"@[0] != "SachsenAnhalt"@[0]);
            assert("NordrheinWestfalen"@.len() != "SachsenAnhalt"@.len());
            assert("RheinlandPfalz"@.len() != "SachsenAnhalt"@.len());
            assert("Saarland"@.len() != "SachsenAnhalt"@.len());
            assert("Sachsen"@.len() != "SachsenAnhalt"@.len());
        },
        GermanRegion::SchleswigHolstein => {
            assert("BadenWuerttemberg"@[0] != "SchleswigHolstein"@[0]);
            assert("Bayern"@.len() != "SchleswigHolstein"@.len());
            assert("Berlin"@.len() != "SchleswigHolstein"@.len());
            assert("Brandenburg"@.len() != "SchleswigHolstein"@.len());
            assert("Bremen"@.len() != "SchleswigHolstein"@.len());
            assert("Hamburg"@.len() != "SchleswigHolstein"@.len());
            assert("Hessen"@.len() != "SchleswigHolstein"@.len());
            assert("MechlenburgVorpommern"@.len() != "SchleswigHolstein"@.len());
            assert("Niedersachsen"@.len() != "SchleswigHolstein"@.len());
            assert("NordrheinWestfalen"@.len() != "SchleswigHolstein"@.len());
            assert("RheinlandPfalz"@.len() != "SchleswigHolstein"@.len());
            assert("Saarland"@.len() != "SchleswigHolstein"@.len());
            assert("Sachsen"@.len() != "SchleswigHolstein"@.len());
            assert("SachsenAnhalt"@.len() != "SchleswigHolstein"@.len());
        },
        GermanRegion::Thueringen => {
            assert("BadenWuerttemberg"@.len() != "Thueringen"@.len());
            assert("Bayern"@.len() != "Thueringen"@.len());
            assert("Berlin"@.len() != "Thueringen"@.len());
            assert("Brandenburg"@.len() != "Thueringen"@.len());
            assert("Bremen"@.len() != "Thueringen"@.len());
            assert("Hamburg"@.len() != "Thueringen"@.len());
            assert("Hessen"@.len() != "Thueringen"@.len());
            assert("MechlenburgVorpommern"@.len() != "Thueringen"@.len());
            assert("Niedersachsen"@.len() != "Thueringen"@.len());
            assert("NordrheinWestfalen"@.len() != "Thueringen"@.len());
            assert("RheinlandPfalz"@.len() != "Thueringen"@.len());
            assert("Saarland"@.len() != "Thueringen"@.len());
            assert("Sachsen"@.len() != "Thueringen"@.len());
            assert("SachsenAnhalt"@.len() != "Thueringen"@.len());
            assert("SchleswigHolstein"@.len() != "Thueringen"@.len());
        },
    }
}

/// The public holidays of a state in a year: their dates, and what they are called.
pub uninterp spec fn public_holidays(region: int, year: int) -> Multiset<(NaiveDate, Seq<char>)>;

/// A list of days in the order of their dates.
pub open spec fn days_ascend(s: Seq<(NaiveDate, Seq<char>)>) -> bool {
    forall|i: int, j: int|
        0 <= i <= j < s.len() ==> !date_less((#[trigger] s[j]).0, (#[trigger] s[i]).0)
}

/// The dates of holidays are in range.
pub open spec fn holidays_valid(s: Seq<(NaiveDate, Seq<char>)>) -> bool {
    forall|i: int| 0 <= i < s.len() ==> (#[trigger] s[i]).0.valid()
}

/// `holiday_de::GermanRegion::holiday_dates_in_year`, with each holiday by its
/// `holiday_de::GermanHoliday::description`: the public holidays of the state with the number
/// `region`, all of that year, in the order of their dates, and none before 1995. The order
/// of two holidays on one date is left open.
#[verifier::external_body]
fn holiday_dates(region: usize, year: i32) -> (r: Vec<(NaiveDate, String)>)
    requires
        region < 16,
        MIN_YEAR <= year <= MAX_YEAR,
    ensures
        r.deep_view().to_multiset() == public_holidays(region as int, year as int),
        days_ascend(r.deep_view()),
        forall|i: int|
            0 <= i < r@.len() ==> (#[trigger] r@[i]).0.valid() && r@[i].0.year == year,
        year < 1995 ==> r@.len() == 0,
{
    let all = [
        holiday_de::GermanRegion::BadenWuerttemberg, holiday_de::GermanRegion::Bayern,
        holiday_de::GermanRegion::Berlin, holiday_de::GermanRegion::Brandenburg,
        holiday_de::GermanRegion::Bremen, holiday_de::GermanRegion::Hamburg,
        holiday_de::GermanRegion::Hessen, holiday_de::GermanRegion::MechlenburgVorpommern,
        holiday_de::GermanRegion::Niedersachsen, holiday_de::GermanRegion::NordrheinWestfalen,
        holiday_de::GermanRegion::RheinlandPfalz, holiday_de::GermanRegion::Saarland,
        holiday_de::GermanRegion::Sachsen, holiday_de::GermanRegion::SachsenAnhalt,
        holiday_de::GermanRegion::SchleswigHolstein, holiday_de::GermanRegion::Thueringen,
    ];
    let named = |d: chrono::NaiveDate| NaiveDate { year: d.year(), month: d.month(), day: d.day() };
    let days = all[region].holiday_dates_in_year(year).into_iter();
    days.map(|(d, h)| (named(d), h.description().to_string())).collect()
}

/// The public holidays of a state in the years from one to another.
pub open spec fn holidays_of_years(region: GermanRegion, from: int, to: int) -> Multiset<
    (NaiveDate, Seq<char>),
>
    decreases to - from + 1,
{
    if to < from {
        Multiset::empty()
    } else {
        holidays_of_years(region, from, to - 1).add(public_holidays(region_number(region), to))
    }
}

/// Whether a day is from one date to before another.
pub open spec fn day_between(h: (NaiveDate, Seq<char>), start: NaiveDate, end: NaiveDate) -> bool {
    !date_less(h.0, start) && date_less(h.0, end)
}

/// The public holidays of a state from one date to before another.
pub open spec fn holidays_between(
    region: GermanRegion,
    start: NaiveDate,
    end: NaiveDate,
) -> Multiset<
    (NaiveDate, Seq<char>),
> {
    holidays_of_years(region, start.year as int, end.year as int).filter(
        |h: (NaiveDate, Seq<char>)| day_between(h, start, end),
    )
}

proof fn filter_of_push(
    s: Seq<(NaiveDate, Seq<char>)>,
    x: (NaiveDate, Seq<char>),
    p: spec_fn((NaiveDate, Seq<char>)) -> bool,
)
    ensures
        s.push(x).to_multiset().filter(p) == if p(x) {
            s.to_multiset().filter(p).insert(x)
        } else {
            s.to_multiset().filter(p)
        },
{
    broadcast use vstd::seq_lib::group_to_multiset_ensures;

    assert(s.push(x).to_multiset() =~= s.to_multiset().insert(x));
    assert(s.push(x).to_multiset().filter(p) =~= if p(x) {
        s.to_multiset().filter(p).insert(x)
    } else {
        s.to_multiset().filter(p)
    });
}

fn add_holidays(
    out: &mut Vec<(NaiveDate, String)>,
    list: &Vec<(NaiveDate, String)>,
    start: NaiveDate,
    end: NaiveDate,
    year: i32,
)
    requires
        days_ascend(old(out).deep_view()),
        days_ascend(list.deep_view()),
        forall|i: int| 0 <= i < old(out)@.len() ==> (#[trigger] old(out)@[i]).0.year < year,
        forall|i: int|
            0 <= i < list@.len() ==> (#[trigger] list@[i]).0.valid() && list@[i].0.year == year,
        holidays_valid(old(out).deep_view()),
    ensures
        days_ascend(final(out).deep_view()),
        holidays_valid(final(out).deep_view()),
        forall|i: int| 0 <= i < final(out)@.len() ==> (#[trigger] final(out)@[i]).0.year <= year,
        final(out).deep_view().to_multiset() == old(out).deep_view().to_multiset().add(
            list.deep_view().to_multiset().filter(
                |h: (NaiveDate, Seq<char>)| day_between(h, start, end),
            ),
        ),
{
    broadcast use vstd::seq_lib::group_to_multiset_ensures;

    let ghost base = out.deep_view();
    let ghost all = list.deep_view();
    let ghost p = |h: (NaiveDate, Seq<char>)| day_between(h, start, end);
    let mut i: usize = 0;
    proof {
        assert(all.take(0) =~= Seq::empty());
        assert(all.take(0).to_multiset().filter(p) =~= Multiset::empty());
        assert(base.to_multiset().add(Multiset::empty()) =~= base.to_multiset());
        assert forall|k: int| 0 <= k < base.len() implies (#[trigger] base[k]).0.year < year by {
            assert(base[k] == out@[k].deep_view());
        }
    }
    while i < list.len()
        invariant
            0 <= i <= list@.len(),
            all == list.deep_view(),
            p == (|h: (NaiveDate, Seq<char>)| day_between(h, start, end)),
            days_ascend(all),
            days_ascend(out.deep_view()),
            holidays_valid(out.deep_view()),
            forall|k: int|
                0 <= k < list@.len() ==> (#[trigger] list@[k]).0.valid() && list@[k].0.year == year,
            forall|k: int| 0 <= k < out@.len() ==> (#[trigger] out@[k]).0.year <= year,
            out.deep_view().to_multiset() == base.to_multiset().add(
                all.take(i as int).to_multiset().filter(p),
            ),
            forall|k: int|
                0 <= k < out.deep_view().len() ==> (#[trigger] out.deep_view()[k]).0.year < year
                    || exists|m: int| 0 <= m < i && all[m].0 == out.deep_view()[k].0,
        decreases list@.len() - i,
    {
        let ghost before = out.deep_view();
        let d = &list[i];
        proof {
            assert(all[i as int] == d.deep_view());
            assert(all.take(i as int).push(d.deep_view()) =~= all.take(i + 1));
            filter_of_push(all.take(i as int), d.deep_view(), p);
        }
        if !d.0.is_before(start) && d.0.is_before(end) {
            let x = (d.0, d.1.clone());
            assert(x.deep_view() == d.deep_view());
            out.push(x);
            proof {
                let now = out.deep_view();
                assert(now =~= before.push(d.deep_view()));
                before.to_multiset_ensures();
                assert(now.to_multiset() =~= before.to_multiset().insert(d.deep_view()));
                assert(p(d.deep_view()));
                assert(now.to_multiset() =~= base.to_multiset().add(
                    all.take(i + 1).to_multiset().filter(p),
                ));
                assert forall|a: int, b: int| 0 <= a <= b < now.len() implies !date_less(
                    (#[trigger] now[b]).0,
                    (#[trigger] now[a]).0,
                ) by {
                    if b < before.len() {
                        assert(!date_less(before[b].0, before[a].0));
                    } else if a < before.len() {
                        assert(now[a] == before[a]);
                        if before[a].0.year == year {
                            let m = choose|m: int| 0 <= m < i && all[m].0 == before[a].0;
                            assert(!date_less(all[i as int].0, all[m].0));
                        } else {
                            assert(before[a] == out@[a].deep_view());
                        }
                    }
                }
                assert forall|k: int| 0 <= k < now.len() implies (#[trigger] now[k]).0.year < year
                    || exists|m: int| 0 <= m < i + 1 && all[m].0 == now[k].0 by {
                    if k < before.len() {
                        assert(now[k] == before[k]);
                        if before[k].0.year >= year {
                            let m = choose|m: int| 0 <= m < i && all[m].0 == before[k].0;
                            assert(0 <= m < i + 1 && all[m].0 == now[k].0);
                        }
                    } else {
                        assert(all[i as int].0 == now[k].0);
                    }
                }
            }
        } else {
            proof {
                assert forall|k: int| 0 <= k < before.len() implies (#[trigger] before[k]).0.year
                    < year || exists|m: int| 0 <= m < i + 1 && all[m].0 == before[k].0 by {
                    if before[k].0.year >= year {
                        let m = choose|m: int| 0 <= m < i && all[m].0 == before[k].0;
                        assert(0 <= m < i + 1 && all[m].0 == before[k].0);
                    }
                }
            }
        }
        i = i + 1;
    }
    assert(all.take(i as int) =~= all);
}

/// The public holidays of a state from one date to before another, in the order of their
/// dates.
pub fn holidays_in_range(region: GermanRegion, start: NaiveDate, end: NaiveDate) -> (r: Vec<
    (NaiveDate, String),
>)
    requires
        start.valid(),
        end.valid(),
    ensures
        r.deep_view().to_multiset() == holidays_between(region, start, end),
        days_ascend(r.deep_view()),
        holidays_valid(r.deep_view()),
{
    broadcast use vstd::seq_lib::group_to_multiset_ensures;

    let ghost p = |h: (NaiveDate, Seq<char>)| day_between(h, start, end);
    let mut out: Vec<(NaiveDate, String)> = Vec::new();
    let mut year: i32 = start.year;
    proof {
        assert(out.deep_view() =~= Seq::empty());
        assert(holidays_of_years(region, start.year as int, start.year - 1).filter(p)
            =~= Multiset::empty());
        assert(out.deep_view().to_multiset() =~= Multiset::empty());
    }
    while year <= end.year
        invariant
            start.valid(),
            end.valid(),
            p == (|h: (NaiveDate, Seq<char>)| day_between(h, start, end)),
            start.year <= year,
            year <= end.year + 1 || year == start.year,
            days_ascend(out.deep_view()),
            holidays_valid(out.deep_view()),
            forall|i: int| 0 <= i < out@.len() ==> (#[trigger] out@[i]).0.year < year,
            out.deep_view().to_multiset() == holidays_of_years(
                region,
                start.year as int,
                year - 1,
            ).filter(p),
        decreases end.year + 1 - year,
    {
        let list = holiday_dates(number_of_region(region), year);
        add_holidays(&mut out, &list, start, end, year);
        proof {
            let a = holidays_of_years(region, start.year as int, year - 1);
            let b = public_holidays(region_number(region), year as int);
            assert(a.add(b).filter(p) =~= a.filter(p).add(b.filter(p)));
        }
        year = year + 1;
    }
    proof {
        if year > start.year {
            assert(year == end.year + 1);
        } else {
            assert(holidays_of_years(region, start.year as int, end.year as int).filter(p)
                =~= Multiset::empty());
        }
    }
    out
}

} // verus!
