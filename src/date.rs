//! Dates of the Roman calendar: days counted back from the Kalends, Nones
//! and Ides, years counted from the founding of the city.

use crate::decimal::{append_decimal, decimal_text, parse_i32, parsed_i32};
use crate::error::OutOfRangeError;
use crate::numeral::{roman_text, RomanNumeral, Style, MAX};
use vstd::prelude::*;
use vstd::string::*;

verus! {

/// A date of the reform calendar (Julian up to 4 October 1582, Gregorian
/// after), as plain values.
#[derive(Debug, Clone, Copy, PartialEq, Eq, Structural, Hash)]
pub struct Kalendarium {
    /// The year, with no year zero: year -1 (1 BC) comes right before year 1.
    pub year: i32,
    /// The month, 1 for January to 12 for December.
    pub month: u32,
    /// The day of the month, from 1.
    pub day: u32,
    /// The day of the week, 0 for Sunday to 6 for Saturday.
    pub weekday: u32,
}

/// The earliest year that can be written: the year before the founding of
/// the city, year nulla a.u.c.
pub const FIRST_YEAR: i32 = -754;

/// The last year whose number a.u.c. can be written as a numeral.
pub const LAST_YEAR: i32 = 4_999_246;

/// The number of rows of the table of festivals.
pub const FESTIVALS: usize = 14;

/// The name of month `m` (1 to 12, and 13 for the January after December)
/// as it follows Kalendae, Nōnae or Īdūs.
pub open spec fn month_name(m: int) -> Seq<char> {
    if m == 2 {
        "Februāriae"@
    } else if m == 3 {
        "Mārtiae"@
    } else if m == 4 {
        "Aprīlis"@
    } else if m == 5 {
        "Māiae"@
    } else if m == 6 {
        "Iūniae"@
    } else if m == 7 {
        "Iūliae"@
    } else if m == 8 {
        "Augustae"@
    } else if m == 9 {
        "Septembrae"@
    } else if m == 10 {
        "Octobrae"@
    } else if m == 11 {
        "Novembrae"@
    } else if m == 12 {
        "Decembrae"@
    } else {
        "Iānuāriae"@
    }
}

/// The form of the name of month `m` that follows a preposition (prīdiē).
pub open spec fn month_ablative(m: int) -> Seq<char> {
    if m == 2 {
        "Februāriās"@
    } else if m == 3 {
        "Mārtiās"@
    } else if m == 4 {
        "Aprīlēs"@
    } else if m == 5 {
        "Māiās"@
    } else if m == 6 {
        "Iūniās"@
    } else if m == 7 {
        "Iūliās"@
    } else if m == 8 {
        "Augustās"@
    } else if m == 9 {
        "Septembrās"@
    } else if m == 10 {
        "Octobrās"@
    } else if m == 11 {
        "Novembrās"@
    } else if m == 12 {
        "Decembrās"@
    } else {
        "Iānuāriās"@
    }
}

/// The abbreviated name of month `m`, as it follows Kal., Nōn. or Īd.
pub open spec fn month_abbreviation(m: int) -> Seq<char> {
    if m == 2 {
        "Feb."@
    } else if m == 3 {
        "Mārt."@
    } else if m == 4 {
        "Apr."@
    } else if m == 5 {
        "Māi."@
    } else if m == 6 {
        "Iun."@
    } else if m == 7 {
        "Iul."@
    } else if m == 8 {
        "Aug."@
    } else if m == 9 {
        "Sept."@
    } else if m == 10 {
        "Oct."@
    } else if m == 11 {
        "Nov."@
    } else if m == 12 {
        "Dec."@
    } else {
        "Iān."@
    }
}

/// The day of the Nones of month `m`: the fifth, or the seventh.
pub open spec fn nones_day(m: int) -> int {
    if m == 2 {
        5
    } else if m == 3 {
        7
    } else if m == 4 {
        5
    } else if m == 5 {
        7
    } else if m == 6 {
        5
    } else if m == 7 {
        7
    } else if m == 8 {
        7
    } else if m == 9 {
        5
    } else if m == 10 {
        7
    } else if m == 11 {
        5
    } else if m == 12 {
        7
    } else {
        7
    }
}

/// The last day of month `m` in a common year.
pub open spec fn last_day(m: int) -> int {
    if m == 2 {
        28
    } else if m == 3 {
        31
    } else if m == 4 {
        30
    } else if m == 5 {
        31
    } else if m == 6 {
        30
    } else if m == 7 {
        31
    } else if m == 8 {
        31
    } else if m == 9 {
        30
    } else if m == 10 {
        31
    } else if m == 11 {
        30
    } else if m == 12 {
        31
    } else {
        31
    }
}

/// The Latin name of weekday `w`, 0 for Sunday to 6 for Saturday.
pub open spec fn weekday_name(w: int) -> Seq<char> {
    if w == 0 {
        "diēs Sōlis"@
    } else if w == 2 {
        "diēs Mārtis"@
    } else if w == 3 {
        "diēs Mercuriī"@
    } else if w == 4 {
        "diēs Iovis"@
    } else if w == 5 {
        "diēs Veneris"@
    } else if w == 6 {
        "diēs Sāturnī"@
    } else {
        "diēs Lūnae"@
    }
}

/// The row `i` of the table of festivals: month, day and name.
pub open spec fn festival_row(i: int) -> (int, int, Seq<char>) {
    if i == 0 {
        (12, 17, "prīmus diēs Saturnālium"@)
    } else if i == 1 {
        (12, 18, "secundus diēs Saturnālium"@)
    } else if i == 2 {
        (12, 19, "tertius diēs Saturnālium"@)
    } else if i == 3 {
        (12, 20, "quārtus diēs Saturnālium"@)
    } else if i == 4 {
        (12, 21, "quīntus diēs Saturnālium"@)
    } else if i == 5 {
        (12, 22, "sextus diēs Saturnālium"@)
    } else if i == 6 {
        (12, 23, "septimus diēs Saturnālium"@)
    } else if i == 7 {
        (12, 25, "Dīēs Nātālis Sōlis Invictī"@)
    } else if i == 8 {
        (2, 15, "Lupercālia"@)
    } else if i == 9 {
        (3, 17, "Līberālia"@)
    } else if i == 10 {
        (4, 1, "Venerālia"@)
    } else if i == 11 {
        (4, 27, "Flōrālia"@)
    } else if i == 12 {
        (6, 24, "Fors Fortūna"@)
    } else {
        (4, 21, "Parilia"@)
    }
}

/// The year is leap for this calendar: divisible by four and not a
/// century unless divisible by four hundred, and the year 1000 besides,
/// which the Julian reckoning kept as a leap year.
pub open spec fn is_leap(year: int) -> bool {
    year == 1000 || (year % 4 == 0 && (year % 100 != 0 || year % 400 == 0))
}

/// The year counted from the founding of the city (ab urbe condita), for a
/// year with no year zero.
pub open spec fn auc_year(year: int) -> int {
    if year >= 0 {
        753 + year
    } else {
        753 + 1 + year
    }
}

/// The day of the Ides of month `m`, eight days after the Nones.
pub open spec fn ides_day(m: int) -> int {
    nones_day(m) + 8
}

/// The Roman name of day `day` of month `month` in `year`: the Kalends,
/// Nones and Ides by name, the day before one of them as prīdiē, and any
/// other day as the count, inclusive, of days up to the next of them.
pub open spec fn day_phrase(year: int, month: int, day: int) -> Seq<char> {
    let nones = nones_day(month);
    let ides = ides_day(month);
    if day == 1 {
        "Kalendae "@ + month_name(month)
    } else if day < nones {
        if nones - day < 2 {
            "prīdiē Nōnās "@ + month_ablative(month)
        } else {
            "ante diem "@ + roman_text(1 + nones - day, Style::Upper) + " Nōn. "@
                + month_abbreviation(month)
        }
    } else if day == nones {
        "Nōnae "@ + month_name(month)
    } else if day < ides {
        if ides - day < 2 {
            "prīdiē Īdūs "@ + month_ablative(month)
        } else {
            "ante diem "@ + roman_text(1 + ides - day, Style::Upper) + " Īd. "@
                + month_abbreviation(month)
        }
    } else if day == ides {
        "Īdūs "@ + month_name(month)
    } else if is_leap(year) && day == 25 {
        "ante diem bis VI Kal. Mart."@
    } else {
        let end = last_day(month) + if is_leap(year) && day > 25 { 1int } else { 0int };
        if end - day < 2 {
            "prīdiē Kalendae "@ + month_ablative(month + 1)
        } else {
            "ante diem "@ + roman_text(2 + end - day, Style::Upper) + " Kal. "@
                + month_abbreviation(month + 1)
        }
    }
}

/// The year written as a numeral, followed by a.u.c.
pub open spec fn year_phrase(year: int) -> Seq<char> {
    roman_text(auc_year(year), Style::Upper) + " a.u.c."@
}

/// The name of the first festival of the table, from row `i` on, held on
/// day `day` of month `month`, followed by a space; nothing if there is
/// none.
pub open spec fn festival_from(i: int, month: int, day: int) -> Seq<char>
    decreases FESTIVALS - i,
{
    if i >= FESTIVALS || i < 0 {
        Seq::empty()
    } else if festival_row(i).0 == month && festival_row(i).1 == day {
        festival_row(i).2 + " "@
    } else {
        festival_from(i + 1, month, day)
    }
}

/// The festival held on the date followed by a space, or nothing.
pub open spec fn festival_phrase(month: int, day: int) -> Seq<char> {
    festival_from(0, month, day)
}

/// The whole Roman date: day, year, festival if any, and weekday.
pub open spec fn date_text(date: Kalendarium) -> Seq<char> {
    day_phrase(date.year as int, date.month as int, date.day as int) + " "@ + year_phrase(
        date.year as int,
    ) + " "@ + festival_phrase(date.month as int, date.day as int) + weekday_name(
        date.weekday as int,
    )
}

/// The day of the week, 1 for Monday to 7 for Sunday, of day `day` of
/// month `month` of year `year` of the reform calendar, counted with a
/// year zero (1 BC); `None` when there is no such date.
pub uninterp spec fn reform_weekday(year: int, month: int, day: int) -> Option<int>;

/// Relies on julian's `Calendar::REFORM1582.at_ymd`, reached through
/// `Month::try_from` (1 to 12): it gives a date only for one of the twelve
/// months and a day from 1 to the last of that month, which is at most 31;
/// and on `Date::weekday` with `Weekday::number`, 1 for Monday to 7 for
/// Sunday. Both depend on the year, month and day alone.
#[verifier::external_body]
fn reform_weekday_of(year: i32, month: u32, day: u32) -> (r: Option<u32>)
    ensures
        r matches Some(w) ==> reform_weekday(year as int, month as int, day as int) == Some(
            w as int,
        ) && 1 <= w <= 7 && 1 <= month <= 12 && 1 <= day <= 31,
        r is None ==> reform_weekday(year as int, month as int, day as int) is None,
{
    let month = julian::Month::try_from(month).ok()?;
    let date = julian::Calendar::REFORM1582.at_ymd(year, month, day).ok()?;
    Some(date.weekday().number())
}

/// The year in the reform calendar's count, which has a year zero: 1 BC
/// (year -1) is its year 0.
pub open spec fn reform_year(year: int) -> int {
    if year < 0 {
        year + 1
    } else {
        year
    }
}

/// The date that the texts `year`, `month` and `day` write, if they are
/// integers, the year is one that can be written and the reform calendar
/// has that day; its weekday is the calendar's, Sunday counted 0.
pub open spec fn date_of(year: Seq<char>, month: Seq<char>, day: Seq<char>) -> Option<
    Kalendarium,
> {
    match (parsed_i32(year), parsed_i32(month), parsed_i32(day)) {
        (Some(y), Some(m), Some(d)) => if FIRST_YEAR <= y <= LAST_YEAR && m >= 0 && d >= 0 {
            match reform_weekday(reform_year(y as int), m as int, d as int) {
                Some(w) => Some(
                    Kalendarium { year: y, month: m as u32, day: d as u32, weekday: (w % 7) as u32 },
                ),
                None => None,
            }
        } else {
            None
        },
        _ => None,
    }
}

/// The fields of a date, for inspection: `day: D, month: M, year: Y,
/// weekday: W`.
pub open spec fn debug_text(date: Kalendarium) -> Seq<char> {
    "day: "@ + decimal_text(date.day as int) + ", month: "@ + decimal_text(date.month as int)
        + ", year: "@ + decimal_text(date.year as int) + ", weekday: "@ + decimal_text(
        date.weekday as int,
    )
}

/// The whole date in the Roman manner: day, year from the founding of the
/// city, festival if any, and day of the week.
pub fn kalendarium(date: &Kalendarium) -> (r: String)
    requires
        date.wf(),
    ensures
        r@ == date_text(*date),
{
    date.to_str()
}

fn append_numeral(out: &mut String, value: u32)
    requires
        value <= MAX,
    ensures
        final(out)@ == old(out)@ + roman_text(value as int, Style::Upper),
{
    let numeral = RomanNumeral(value);
    let text = numeral.to_uppercase();
    out.append(text.as_str());
}

impl Kalendarium {
    /// The fields hold a date that can be written.
    pub open spec fn wf(self) -> bool {
        &&& FIRST_YEAR <= self.year <= LAST_YEAR
        &&& 1 <= self.month <= 12
        &&& 1 <= self.day <= 31
        &&& self.weekday <= 6
    }

    /// The date that `year`, `month` and `day` write in decimal, with the
    /// year counted without a year zero; `OutOfRangeError` when they are
    /// not integers, when the year is before the year nulla a.u.c. (-754)
    /// or after 4,999,246, or when the reform calendar has no such day.
    pub fn new(year: &str, month: &str, day: &str) -> (r: Result<Self, OutOfRangeError>)
        ensures
            r matches Ok(k) ==> date_of(year@, month@, day@) == Some(k) && k.wf(),
            r is Err <==> date_of(year@, month@, day@) is None,
    {
        let y = match parse_i32(year) {
            Some(y) => y,
            None => return Err(OutOfRangeError),
        };
        let m = match parse_i32(month) {
            Some(m) => m,
            None => return Err(OutOfRangeError),
        };
        let d = match parse_i32(day) {
            Some(d) => d,
            None => return Err(OutOfRangeError),
        };
        if y < FIRST_YEAR || y > LAST_YEAR || m < 0 || d < 0 {
            return Err(OutOfRangeError);
        }
        // the reform calendar counts 1 BC as its year 0
        let reform = if y < 0 {
            y + 1
        } else {
            y
        };
        match reform_weekday_of(reform, m as u32, d as u32) {
            Some(w) => Ok(Kalendarium { year: y, month: m as u32, day: d as u32, weekday: w % 7 }),
            None => Err(OutOfRangeError),
        }
    }

    /// The fields of the date, for inspection.
    pub fn debug(&self) -> (r: String)
        ensures
            r@ == debug_text(*self),
    {
        let mut out = String::from_str("day: ");
        append_decimal(&mut out, self.day as i64);
        out.append(", month: ");
        append_decimal(&mut out, self.month as i64);
        out.append(", year: ");
        append_decimal(&mut out, self.year as i64);
        out.append(", weekday: ");
        append_decimal(&mut out, self.weekday as i64);
        out
    }

    /// Whether the date's year is a leap year.
    fn is_leap_year(&self) -> (r: bool)
        ensures
            r == is_leap(self.year as int),
    {
        let year = self.year;
        if year == 1000 {
            // the Julian reckoning kept 1000 as a leap year
            true
        } else if year % 4 == 0 {
            if year % 100 == 0 {
                year % 400 == 0
            } else {
                true
            }
        } else {
            false
        }
    }

    /// The whole date in the Roman manner, as `kalendarium` writes it.
    pub fn to_str(&self) -> (r: String)
        requires
            self.wf(),
        ensures
            r@ == date_text(*self),
    {
        let mut out = self.roman_day();
        out.append(" ");
        let year = self.roman_year();
        out.append(year.as_str());
        out.append(" ");
        let festival = self.roman_festival_day();
        out.append(festival.as_str());
        let weekday = self.roman_day_of_week();
        out.append(weekday.as_str());
        out
    }

    /// The year counted from the founding of the city, as an upper-case
    /// numeral followed by a.u.c.
    pub fn roman_year(&self) -> (r: String)
        requires
            self.wf(),
        ensures
            r@ == year_phrase(self.year as int),
    {
        let year = self.year;
        let auc: u32 = if year >= 0 {
            (753 + year) as u32
        } else {
            // there is no year zero: year -1 is the year before year 1
            (753 + 1 + year) as u32
        };
        let mut out = String::new();
        append_numeral(&mut out, auc);
        out.append(" a.u.c.");
        proof {
            reveal_strlit(" a.u.c.");
        }
        out
    }

    /// The festival held on the date followed by a space, or nothing.
    pub fn roman_festival_day(&self) -> (r: String)
        requires
            self.wf(),
        ensures
            r@ == festival_phrase(self.month as int, self.day as int),
    {
        let mut out = String::new();
        let mut i: usize = 0;
        while i < FESTIVALS
            invariant
                i <= FESTIVALS,
                out@ == Seq::<char>::empty(),
                festival_phrase(self.month as int, self.day as int) == festival_from(
                    i as int,
                    self.month as int,
                    self.day as int,
                ),
            decreases FESTIVALS - i,
        {
            let (month, day, name) = festival_entry(i);
            if month == self.month && day == self.day {
                out.append(name);
                out.append(" ");
                return out;
            }
            i = i + 1;
        }
        out
    }

    /// The day of the month in the Roman manner: the Kalends, Nones and Ides
    /// by name, the day before one of them as prīdiē, any other day counted
    /// inclusively up to the next of them.
    pub fn roman_day(&self) -> (r: String)
        requires
            self.wf(),
        ensures
            r@ == day_phrase(self.year as int, self.month as int, self.day as int),
    {
        let day = self.day;
        let month = self.month as usize;
        let nones = nones_of(month);
        let ides = nones + 8;
        let leap = self.is_leap_year();
        let mut out;
        if day == 1 {
            // the first of the month, the Kalends
            out = String::from_str("Kalendae ");
            out.append(month_name_str(month));
        } else if day < nones {
            // the days leading up to the Nones
            if nones - day < 2 {
                out = String::from_str("prīdiē Nōnās ");
                out.append(month_ablative_str(month));
            } else {
                out = String::from_str("ante diem ");
                append_numeral(&mut out, 1 + nones - day);
                out.append(" Nōn. ");
                out.append(month_abbreviation_str(month));
            }
        } else if day == nones {
            // the Nones themselves
            out = String::from_str("Nōnae ");
            out.append(month_name_str(month));
        } else if day < ides {
            // the days leading up to the Ides
            if ides - day < 2 {
                out = String::from_str("prīdiē Īdūs ");
                out.append(month_ablative_str(month));
            } else {
                out = String::from_str("ante diem ");
                append_numeral(&mut out, 1 + ides - day);
                out.append(" Īd. ");
                out.append(month_abbreviation_str(month));
            }
        } else if day == ides {
            // the Ides themselves
            out = String::from_str("Īdūs ");
            out.append(month_name_str(month));
        } else if leap && day == 25 {
            // the leap day, the sixth day before the Kalends of March counted twice
            out = String::from_str("ante diem bis VI Kal. Mart.");
        } else {
            // the days leading up to the Kalends of the next month
            let leap_day: u32 = if leap && day > 25 {
                1
            } else {
                0
            };
            let end = last_day_of(month) + leap_day;
            if end < day + 2 {
                out = String::from_str("prīdiē Kalendae ");
                out.append(month_ablative_str(month + 1));
            } else {
                out = String::from_str("ante diem ");
                append_numeral(&mut out, 2 + end - day);
                out.append(" Kal. ");
                out.append(month_abbreviation_str(month + 1));
            }
        }
        out
    }

    /// The day of the week in Latin.
    pub fn roman_day_of_week(&self) -> (r: String)
        requires
            self.wf(),
        ensures
            r@ == weekday_name(self.weekday as int),
    {
        String::from_str(weekday_str(self.weekday as usize))
    }
}

/// The name of month `m` after Kalendae, Nōnae or Īdūs.
fn month_name_str(m: usize) -> (s: &'static str)
    requires
        1 <= m <= 13,
    ensures
        s@ == month_name(m as int),
{
    proof {
        reveal_strlit("Iānuāriae");
        reveal_strlit("Februāriae");
        reveal_strlit("Mārtiae");
        reveal_strlit("Aprīlis");
        reveal_strlit("Māiae");
        reveal_strlit("Iūniae");
        reveal_strlit("Iūliae");
        reveal_strlit("Augustae");
        reveal_strlit("Septembrae");
        reveal_strlit("Octobrae");
        reveal_strlit("Novembrae");
        reveal_strlit("Decembrae");
        reveal_strlit("Iānuāriae");
    }
    match m {
        1 => "Iānuāriae",
        2 => "Februāriae",
        3 => "Mārtiae",
        4 => "Aprīlis",
        5 => "Māiae",
        6 => "Iūniae",
        7 => "Iūliae",
        8 => "Augustae",
        9 => "Septembrae",
        10 => "Octobrae",
        11 => "Novembrae",
        12 => "Decembrae",
        _ => "Iānuāriae",
    }
}

/// The name of month `m` after prīdiē.
fn month_ablative_str(m: usize) -> (s: &'static str)
    requires
        1 <= m <= 13,
    ensures
        s@ == month_ablative(m as int),
{
    proof {
        reveal_strlit("Iānuāriās");
        reveal_strlit("Februāriās");
        reveal_strlit("Mārtiās");
        reveal_strlit("Aprīlēs");
        reveal_strlit("Māiās");
        reveal_strlit("Iūniās");
        reveal_strlit("Iūliās");
        reveal_strlit("Augustās");
        reveal_strlit("Septembrās");
        reveal_strlit("Octobrās");
        reveal_strlit("Novembrās");
        reveal_strlit("Decembrās");
        reveal_strlit("Iānuāriās");
    }
    match m {
        1 => "Iānuāriās",
        2 => "Februāriās",
        3 => "Mārtiās",
        4 => "Aprīlēs",
        5 => "Māiās",
        6 => "Iūniās",
        7 => "Iūliās",
        8 => "Augustās",
        9 => "Septembrās",
        10 => "Octobrās",
        11 => "Novembrās",
        12 => "Decembrās",
        _ => "Iānuāriās",
    }
}

/// The abbreviated name of month `m`.
fn month_abbreviation_str(m: usize) -> (s: &'static str)
    requires
        1 <= m <= 13,
    ensures
        s@ == month_abbreviation(m as int),
{
    proof {
        reveal_strlit("Iān.");
        reveal_strlit("Feb.");
        reveal_strlit("Mārt.");
        reveal_strlit("Apr.");
        reveal_strlit("Māi.");
        reveal_strlit("Iun.");
        reveal_strlit("Iul.");
        reveal_strlit("Aug.");
        reveal_strlit("Sept.");
        reveal_strlit("Oct.");
        reveal_strlit("Nov.");
        reveal_strlit("Dec.");
        reveal_strlit("Iān.");
    }
    match m {
        1 => "Iān.",
        2 => "Feb.",
        3 => "Mārt.",
        4 => "Apr.",
        5 => "Māi.",
        6 => "Iun.",
        7 => "Iul.",
        8 => "Aug.",
        9 => "Sept.",
        10 => "Oct.",
        11 => "Nov.",
        12 => "Dec.",
        _ => "Iān.",
    }
}

/// The day of the Nones of month `m`.
fn nones_of(m: usize) -> (s: u32)
    requires
        1 <= m <= 13,
    ensures
        s == nones_day(m as int),
{
    match m {
        1 => 7,
        2 => 5,
        3 => 7,
        4 => 5,
        5 => 7,
        6 => 5,
        7 => 7,
        8 => 7,
        9 => 5,
        10 => 7,
        11 => 5,
        12 => 7,
        _ => 7,
    }
}

/// The last day of month `m` in a common year.
fn last_day_of(m: usize) -> (s: u32)
    requires
        1 <= m <= 13,
    ensures
        s == last_day(m as int),
{
    match m {
        1 => 31,
        2 => 28,
        3 => 31,
        4 => 30,
        5 => 31,
        6 => 30,
        7 => 31,
        8 => 31,
        9 => 30,
        10 => 31,
        11 => 30,
        12 => 31,
        _ => 31,
    }
}

/// The Latin name of weekday `w`.
fn weekday_str(w: usize) -> (s: &'static str)
    requires
        w <= 6,
    ensures
        s@ == weekday_name(w as int),
{
    proof {
        reveal_strlit("diēs Sōlis");
        reveal_strlit("diēs Lūnae");
        reveal_strlit("diēs Mārtis");
        reveal_strlit("diēs Mercuriī");
        reveal_strlit("diēs Iovis");
        reveal_strlit("diēs Veneris");
        reveal_strlit("diēs Sāturnī");
    }
    match w {
        0 => "diēs Sōlis",
        1 => "diēs Lūnae",
        2 => "diēs Mārtis",
        3 => "diēs Mercuriī",
        4 => "diēs Iovis",
        5 => "diēs Veneris",
        _ => "diēs Sāturnī",
    }
}

/// Row `i` of the table of festivals.
fn festival_entry(i: usize) -> (r: (u32, u32, &'static str))
    requires
        i < FESTIVALS,
    ensures
        r.0 == festival_row(i as int).0,
        r.1 == festival_row(i as int).1,
        r.2@ == festival_row(i as int).2,
{
    proof {
        reveal_strlit("prīmus diēs Saturnālium");
        reveal_strlit("secundus diēs Saturnālium");
        reveal_strlit("tertius diēs Saturnālium");
        reveal_strlit("quārtus diēs Saturnālium");
        reveal_strlit("quīntus diēs Saturnālium");
        reveal_strlit("sextus diēs Saturnālium");
        reveal_strlit("septimus diēs Saturnālium");
        reveal_strlit("Dīēs Nātālis Sōlis Invictī");
        reveal_strlit("Lupercālia");
        reveal_strlit("Līberālia");
        reveal_strlit("Venerālia");
        reveal_strlit("Flōrālia");
        reveal_strlit("Fors Fortūna");
        reveal_strlit("Parilia");
    }
    match i {
        0 => (12, 17, "prīmus diēs Saturnālium"),
        1 => (12, 18, "secundus diēs Saturnālium"),
        2 => (12, 19, "tertius diēs Saturnālium"),
        3 => (12, 20, "quārtus diēs Saturnālium"),
        4 => (12, 21, "quīntus diēs Saturnālium"),
        5 => (12, 22, "sextus diēs Saturnālium"),
        6 => (12, 23, "septimus diēs Saturnālium"),
        7 => (12, 25, "Dīēs Nātālis Sōlis Invictī"),
        8 => (2, 15, "Lupercālia"),
        9 => (3, 17, "Līberālia"),
        10 => (4, 1, "Venerālia"),
        11 => (4, 27, "Flōrālia"),
        12 => (6, 24, "Fors Fortūna"),
        _ => (4, 21, "Parilia"),
    }
}

} // verus!
