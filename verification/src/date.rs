//! Date handling: the canonical page title is `"<EnglishMonthName>_<day>"`,
//! rendered from a date and parsed back from user-supplied text.

use crate::text::{
    count_char, dec_rep, dec_value, first_pos, is_digit_char, lemma_count_char_concat,
    lemma_count_char_zero, lemma_dec_rep_digits, lemma_dec_value_of_rep, lemma_first_pos_agrees,
    parse_u32_dec, str_eq_chars, u32_to_dec, valid_day_seq,
};
use vstd::prelude::*;
use vstd::string::StrSliceExecFns;
use vstd::string::StringExecFns;

verus! {

/// The English name of month `m`, as the remote source spells it in page
/// titles. Meaningful only for `1 <= m <= 12`.
pub open spec fn month_name(m: int) -> Seq<char> {
    if m == 1 {
        "January"@
    } else if m == 2 {
        "February"@
    } else if m == 3 {
        "March"@
    } else if m == 4 {
        "April"@
    } else if m == 5 {
        "May"@
    } else if m == 6 {
        "June"@
    } else if m == 7 {
        "July"@
    } else if m == 8 {
        "August"@
    } else if m == 9 {
        "September"@
    } else if m == 10 {
        "October"@
    } else if m == 11 {
        "November"@
    } else {
        "December"@
    }
}

/// Distinct month numbers in `1..=12` have distinct English names.
pub proof fn lemma_month_names_distinct(i: int, j: int)
    requires
        1 <= i <= 12,
        1 <= j <= 12,
        i != j,
    ensures
        month_name(i) != month_name(j),
{
    reveal_strlit("January");
    reveal_strlit("February");
    reveal_strlit("March");
    reveal_strlit("April");
    reveal_strlit("May");
    reveal_strlit("June");
    reveal_strlit("July");
    reveal_strlit("August");
    reveal_strlit("September");
    reveal_strlit("October");
    reveal_strlit("November");
    reveal_strlit("December");
    assert(month_name(i).len() != month_name(j).len() || month_name(i)[0] != month_name(j)[0]
        || month_name(i)[2] != month_name(j)[2]);
    if month_name(i) == month_name(j) {
        assert(month_name(i).len() == month_name(j).len());
        assert(month_name(i)[0] == month_name(j)[0]);
        assert(month_name(i)[2] == month_name(j)[2]);
    }
}

/// Month names never contain the underscore that separates the title's two
/// segments.
pub proof fn lemma_month_name_no_underscore(m: int)
    requires
        1 <= m <= 12,
    ensures
        forall|i: int| 0 <= i < month_name(m).len() ==> month_name(m)[i] != '_',
{
    reveal_strlit("January");
    reveal_strlit("February");
    reveal_strlit("March");
    reveal_strlit("April");
    reveal_strlit("May");
    reveal_strlit("June");
    reveal_strlit("July");
    reveal_strlit("August");
    reveal_strlit("September");
    reveal_strlit("October");
    reveal_strlit("November");
    reveal_strlit("December");
}

/// English month name for a month number; total over `1..=12` only.
pub fn get_month(m: u32) -> (r: &'static str)
    requires
        1 <= m <= 12,
    ensures
        r@ == month_name(m as int),
{
    match m {
        1 => "January",
        2 => "February",
        3 => "March",
        4 => "April",
        5 => "May",
        6 => "June",
        7 => "July",
        8 => "August",
        9 => "September",
        10 => "October",
        11 => "November",
        _ => "December",
    }
}

/// The month number whose English name `s` is: the case-sensitive reverse of
/// `month_name`, `None` for anything else.
pub open spec fn spec_parse_month(s: Seq<char>) -> Option<int> {
    if s == month_name(1) {
        Some(1)
    } else if s == month_name(2) {
        Some(2)
    } else if s == month_name(3) {
        Some(3)
    } else if s == month_name(4) {
        Some(4)
    } else if s == month_name(5) {
        Some(5)
    } else if s == month_name(6) {
        Some(6)
    } else if s == month_name(7) {
        Some(7)
    } else if s == month_name(8) {
        Some(8)
    } else if s == month_name(9) {
        Some(9)
    } else if s == month_name(10) {
        Some(10)
    } else if s == month_name(11) {
        Some(11)
    } else if s == month_name(12) {
        Some(12)
    } else {
        None
    }
}

/// The name of each month parses back to that month.
pub proof fn lemma_parse_month_name(m: int)
    requires
        1 <= m <= 12,
    ensures
        spec_parse_month(month_name(m)) == Some(m),
{
    assert forall|k: int| 1 <= k < m implies month_name(k) != month_name(m) by {
        lemma_month_names_distinct(k, m);
    }
}

/// A date request: either "whatever today is", resolved from the local clock
/// at render time, or an explicit month and day.
#[derive(Debug, Clone, Copy, PartialEq, Eq, Structural)]
pub enum HolidayDate {
    Today,
    ManualDate { month: u32, day: u32 },
}

/// How a textual date can be refused: not two `_`-separated segments, a first
/// segment that is no English month name, or a second segment that is no
/// decimal day number. Each variant carries the offending text.
#[derive(Debug, PartialEq, Eq)]
pub enum HolidayDateError {
    InvalidDate(String),
    MonthParseError(String),
    DayParseError(String),
}

/// The canonical page title of an explicit date.
pub open spec fn spec_title(m: int, d: int) -> Seq<char> {
    month_name(m) + seq!['_'] + dec_rep(d)
}

/// The date denoted by a canonical title: exactly one underscore, an English
/// month name before it, a decimal day number after it.
pub open spec fn spec_parse_title(s: Seq<char>) -> Option<(int, int)> {
    if count_char(s, '_') == 1 {
        let p = first_pos(s, '_');
        let mp = s.subrange(0, p);
        let dp = s.subrange(p + 1, s.len() as int);
        match spec_parse_month(mp) {
            Some(m) => if valid_day_seq(dp) {
                Some((m, dec_value(dp)))
            } else {
                None
            },
            None => None,
        }
    } else {
        None
    }
}

impl HolidayDate {
    /// An explicit date must carry a month the name table covers; the day is
    /// deliberately unchecked and left to the remote source.
    pub open spec fn wf(self) -> bool {
        match self {
            HolidayDate::Today => true,
            HolidayDate::ManualDate { month, day: _ } => 1 <= month <= 12,
        }
    }

    /// Render this date as the canonical page title. `Today` is resolved from
    /// the local clock, so only the shape of the result is promised for it.
    pub fn get_date(&self) -> (r: String)
        requires
            self.wf(),
        ensures
            (self matches HolidayDate::ManualDate { month, day } ==> r@ == spec_title(
                month as int,
                day as int,
            )),
            (self is Today ==> exists|m: int, d: int|
                1 <= m <= 12 && 1 <= d <= 31 && r@ == spec_title(m, d) && spec_parse_title(r@)
                    == Some((m, d))),
    {
        match self {
            HolidayDate::Today => {
                let (m, d) = current_month_day();
                let r = render_title(m, d);
                proof {
                    lemma_title_round_trip(m, d);
                    assert(1 <= m as int <= 12 && 1 <= d as int <= 31 && r@ == spec_title(
                        m as int,
                        d as int,
                    ) && spec_parse_title(r@) == Some((m as int, d as int)));
                }
                r
            },
            HolidayDate::ManualDate { month, day } => render_title(*month, *day),
        }
    }

    /// Parse a `"<Month>_<day>"` string into an explicit date, refusing
    /// anything the title grammar does not cover and naming the reason.
    pub fn from_str(s: &str) -> (r: Result<HolidayDate, HolidayDateError>)
        ensures
            match r {
                Ok(d) => {
                    &&& d matches HolidayDate::ManualDate { month, day }
                    &&& spec_parse_title(s@) == Some((month as int, day as int))
                },
                Err(e) => {
                    &&& spec_parse_title(s@) is None
                    &&& match e {
                        HolidayDateError::InvalidDate(t) => count_char(s@, '_') != 1 && t@ == s@,
                        HolidayDateError::MonthParseError(t) => count_char(s@, '_') == 1
                            && spec_parse_month(s@.subrange(0, first_pos(s@, '_'))) is None && t@
                            == s@.subrange(0, first_pos(s@, '_')),
                        HolidayDateError::DayParseError(t) => count_char(s@, '_') == 1
                            && spec_parse_month(s@.subrange(0, first_pos(s@, '_'))) is Some
                            && !valid_day_seq(
                            s@.subrange(first_pos(s@, '_') + 1, s@.len() as int),
                        ) && t@ == s@.subrange(first_pos(s@, '_') + 1, s@.len() as int),
                    }
                },
            },
    {
        let len = s.unicode_len();
        let mut cnt: usize = 0;
        let mut first: usize = 0;
        let mut i: usize = 0;
        while i < len
            invariant
                len == s@.len(),
                0 <= i <= len,
                cnt <= i,
                cnt == count_char(s@.take(i as int), '_'),
                cnt > 0 ==> first < i && s@[first as int] == '_' && (forall|j: int|
                    0 <= j < first ==> s@[j] != '_'),
                cnt == 0 ==> forall|j: int| 0 <= j < i ==> s@[j] != '_',
            decreases len - i,
        {
            let c = s.get_char(i);
            proof {
                assert(s@.take(i + 1).drop_last() =~= s@.take(i as int));
            }
            if c == '_' {
                if cnt == 0 {
                    first = i;
                }
                cnt = cnt + 1;
            }
            i = i + 1;
        }
        proof {
            assert(s@.take(len as int) =~= s@);
        }
        if cnt != 1 {
            return Err(HolidayDateError::InvalidDate(s.to_owned()));
        }
        proof {
            lemma_first_pos_agrees(s@, '_', first as int);
        }
        let month_str = s.substring_char(0, first);
        let day_str = s.substring_char(first + 1, len);
        let month = match parse_month(month_str) {
            Ok(m) => m,
            Err(e) => {
                return Err(e);
            },
        };
        match parse_u32_dec(day_str) {
            Some(day) => Ok(HolidayDate::ManualDate { month, day }),
            None => Err(HolidayDateError::DayParseError(day_str.to_owned())),
        }
    }
}

/// Render an explicit month and day as the canonical page title.
pub fn render_title(month: u32, day: u32) -> (r: String)
    requires
        1 <= month <= 12,
    ensures
        r@ == spec_title(month as int, day as int),
{
    let mut s = get_month(month).to_owned();
    s.append("_");
    let digits = u32_to_dec(day);
    s.append(digits.as_str());
    proof {
        reveal_strlit("_");
        assert(s@ =~= spec_title(month as int, day as int));
    }
    s
}

/// Match a month name against the table, case-sensitively.
pub fn parse_month(s: &str) -> (r: Result<u32, HolidayDateError>)
    ensures
        match r {
            Ok(m) => 1 <= m <= 12 && spec_parse_month(s@) == Some(m as int),
            Err(e) => {
                &&& spec_parse_month(s@) is None
                &&& e matches HolidayDateError::MonthParseError(t) && t@ == s@
            },
        },
{
    if str_eq_chars(s, "January") {
        Ok(1)
    } else if str_eq_chars(s, "February") {
        Ok(2)
    } else if str_eq_chars(s, "March") {
        Ok(3)
    } else if str_eq_chars(s, "April") {
        Ok(4)
    } else if str_eq_chars(s, "May") {
        Ok(5)
    } else if str_eq_chars(s, "June") {
        Ok(6)
    } else if str_eq_chars(s, "July") {
        Ok(7)
    } else if str_eq_chars(s, "August") {
        Ok(8)
    } else if str_eq_chars(s, "September") {
        Ok(9)
    } else if str_eq_chars(s, "October") {
        Ok(10)
    } else if str_eq_chars(s, "November") {
        Ok(11)
    } else if str_eq_chars(s, "December") {
        Ok(12)
    } else {
        Err(HolidayDateError::MonthParseError(s.to_owned()))
    }
}

/// Relies on chrono's `Local::now` and `Datelike`: the current local date's
/// month is in `1..=12` and its day of month in `1..=31`.
#[verifier::external_body]
fn current_month_day() -> (r: (u32, u32))
    ensures
        1 <= r.0 <= 12,
        1 <= r.1 <= 31,
{
    let now = chrono::Local::now();
    (chrono::Datelike::month(&now), chrono::Datelike::day(&now))
}

/// Law: rendering is total over months `1..=12` — a nonempty title exists for
/// every such month and every day value — and deterministic — the title is a
/// function of the month and day values alone, so equal dates render equally.
pub proof fn lemma_render_total_deterministic(
    month: u32,
    day: u32,
    other_month: u32,
    other_day: u32,
)
    requires
        1 <= month <= 12,
        month == other_month,
        day == other_day,
    ensures
        spec_title(month as int, day as int).len() > 0,
        spec_title(month as int, day as int) == spec_title(other_month as int, other_day as int),
{
}

/// Law: parsing a rendered canonical title gives back the explicit date it
/// was rendered from, for every month in `1..=12` and every day value.
pub proof fn lemma_title_round_trip(month: u32, day: u32)
    requires
        1 <= month <= 12,
    ensures
        spec_parse_title(spec_title(month as int, day as int)) == Some(
            (month as int, day as int),
        ),
{
    let m = month as int;
    let d = day as int;
    let name = month_name(m);
    let rep = dec_rep(d);
    let t = spec_title(m, d);
    lemma_month_name_no_underscore(m);
    lemma_dec_rep_digits(d);
    assert forall|i: int| 0 <= i < rep.len() implies rep[i] != '_' by {
        assert(is_digit_char(rep[i]));
    }
    // exactly one underscore, at the end of the month name
    lemma_count_char_concat(name + seq!['_'], rep, '_');
    lemma_count_char_concat(name, seq!['_'], '_');
    lemma_count_char_zero(name, '_');
    lemma_count_char_zero(rep, '_');
    assert(count_char(seq!['_'], '_') == 1) by {
        assert(count_char(Seq::<char>::empty(), '_') == 0);
        assert(seq!['_'].drop_last() =~= Seq::<char>::empty());
    }
    assert(count_char(t, '_') == 1);
    assert(t[name.len() as int] == '_');
    assert forall|j: int| 0 <= j < name.len() implies t[j] != '_' by {
        assert(t[j] == name[j]);
    }
    lemma_first_pos_agrees(t, '_', name.len() as int);
    // the two segments are the name and the digits
    assert(t.subrange(0, name.len() as int) =~= name);
    assert(t.subrange(name.len() as int + 1, t.len() as int) =~= rep);
    lemma_parse_month_name(m);
    lemma_dec_value_of_rep(d);
}

} // verus!
