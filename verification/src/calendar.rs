//! The day and month of a modification time, on a clock that runs a fixed
//! nine hours ahead of UTC.

use crate::decimal::{decimal, decimal_digits};
use crate::style::{option_text, paint, painted, texts, Color};
use vstd::prelude::*;

verus! {

/// How far the listing's clock is ahead of UTC, in seconds. The host's own
/// time zone plays no part.
pub const UTC_OFFSET_SECS: i32 = 9 * 3600;

/// The number of months that a `MonthNames` holds.
pub const MONTHS: usize = 12;

/// The day of the month, counted from zero, at the instant `secs` seconds
/// after the start of 1970 in UTC, read on a clock `offset_secs` seconds
/// ahead of UTC, as chrono's proleptic Gregorian calendar has it. `None`
/// where chrono has no date for the instant or does not take the offset.
pub uninterp spec fn local_day0(secs: i64, offset_secs: i32) -> Option<u32>;

/// The month, counted from zero for January, at the instant `secs` seconds
/// after the start of 1970 in UTC, read on a clock `offset_secs` seconds
/// ahead of UTC, as chrono's proleptic Gregorian calendar has it. `None`
/// where chrono has no date for the instant or does not take the offset.
pub uninterp spec fn local_month0(secs: i64, offset_secs: i32) -> Option<u32>;

/// The English short name of a month, counted from zero for January.
pub open spec fn english_month(month0: int) -> Seq<char>
    recommends
        0 <= month0 < 12,
{
    seq![
        seq!['J', 'a', 'n'],
        seq!['F', 'e', 'b'],
        seq!['M', 'a', 'r'],
        seq!['A', 'p', 'r'],
        seq!['M', 'a', 'y'],
        seq!['J', 'u', 'n'],
        seq!['J', 'u', 'l'],
        seq!['A', 'u', 'g'],
        seq!['S', 'e', 'p'],
        seq!['O', 'c', 't'],
        seq!['N', 'o', 'v'],
        seq!['D', 'e', 'c'],
    ][month0]
}

/// The twelve English short names, January first.
pub open spec fn english_months() -> Seq<Seq<char>> {
    Seq::new(12, |month0: int| english_month(month0))
}

/// Builds the instant with `chrono::NaiveDateTime::from_timestamp_opt` and
/// the clock with `chrono::FixedOffset::east_opt`, joins them with
/// `chrono::DateTime::from_naive_utc_and_offset` and calls
/// `chrono::Datelike::day0`. Trusted: the outcome depends on the two numbers
/// alone, so it has a name; nothing more is claimed of it.
#[verifier::external_body]
#[allow(deprecated)]
fn day0_at(secs: i64, offset_secs: i32) -> (day0: Option<u32>)
    ensures
        day0 == local_day0(secs, offset_secs),
{
    let utc = chrono::NaiveDateTime::from_timestamp_opt(secs, 0)?;
    let offset = chrono::FixedOffset::east_opt(offset_secs)?;
    let local = chrono::DateTime::<chrono::FixedOffset>::from_naive_utc_and_offset(utc, offset);
    Some(chrono::Datelike::day0(&local))
}

/// Builds the instant with `chrono::NaiveDateTime::from_timestamp_opt` and
/// the clock with `chrono::FixedOffset::east_opt`, joins them with
/// `chrono::DateTime::from_naive_utc_and_offset` and calls
/// `chrono::Datelike::month0`. Trusted: the outcome depends on the two
/// numbers alone, so it has a name, and a month that comes out is one of
/// the twelve, as chrono documents the range of `month0`.
#[verifier::external_body]
#[allow(deprecated)]
fn month0_at(secs: i64, offset_secs: i32) -> (month0: Option<u32>)
    ensures
        month0 == local_month0(secs, offset_secs),
        month0 matches Some(m) ==> m < 12,
{
    let utc = chrono::NaiveDateTime::from_timestamp_opt(secs, 0)?;
    let offset = chrono::FixedOffset::east_opt(offset_secs)?;
    let local = chrono::DateTime::<chrono::FixedOffset>::from_naive_utc_and_offset(utc, offset);
    Some(chrono::Datelike::month0(&local))
}

/// Calls `locale::Time::english` and, on what it returns,
/// `locale::Time::short_month_name`. Trusted: the English table holds the
/// three-letter names `Jan` to `Dec`.
#[verifier::external_body]
fn english_short_month(month0: usize) -> (name: String)
    requires
        month0 < 12,
    ensures
        name@ == english_month(month0 as int),
{
    locale::Time::english().short_month_name(month0)
}

/// The short names of the twelve months in one language, January first.
#[derive(Debug)]
pub struct MonthNames {
    names: Vec<String>,
}

impl View for MonthNames {
    type V = Seq<Seq<char>>;

    closed spec fn view(&self) -> Seq<Seq<char>> {
        texts(self.names@)
    }
}

impl MonthNames {
    #[verifier::type_invariant]
    spec fn twelve(self) -> bool {
        self.names@.len() == 12
    }

    /// Takes the names as given. They are refused unless there are twelve.
    pub fn new(names: Vec<String>) -> (months: Option<MonthNames>)
        ensures
            months is Some <==> names@.len() == 12,
            months matches Some(m) ==> m@ == texts(names@),
    {
        if names.len() == MONTHS {
            let months = MonthNames { names };
            Some(months)
        } else {
            None
        }
    }

    /// The English names, `Jan` to `Dec`.
    pub fn english() -> (months: MonthNames)
        ensures
            months@ == english_months(),
    {
        let mut names: Vec<String> = Vec::new();
        let mut month0: usize = 0;
        while month0 < MONTHS
            invariant
                month0 <= 12,
                names@.len() == month0,
                forall|k: int| 0 <= k < month0 ==> (#[trigger] names@[k])@ == english_month(k),
            decreases 12 - month0,
        {
            names.push(english_short_month(month0));
            month0 += 1;
        }
        let months = MonthNames { names };
        assert(months@ =~= english_months());
        months
    }

    /// The names that a locale gave, where it gave twelve; the English ones
    /// where it gave none or another number.
    pub fn or_english(loaded: Option<Vec<String>>) -> (months: MonthNames)
        ensures
            months@ == month_names_or_english(loaded),
    {
        match loaded {
            Some(names) => match MonthNames::new(names) {
                Some(months) => months,
                None => MonthNames::english(),
            },
            None => MonthNames::english(),
        }
    }

    /// The name of one month.
    pub fn name(&self, month0: u32) -> (name: &String)
        requires
            month0 < 12,
        ensures
            self@.len() == 12,
            name@ == self@[month0 as int],
    {
        proof {
            use_type_invariant(self);
        }
        &self.names[month0 as usize]
    }
}

/// The names that `MonthNames::or_english` settles on.
pub open spec fn month_names_or_english(loaded: Option<Vec<String>>) -> Seq<Seq<char>> {
    match loaded {
        Some(names) if names@.len() == 12 => texts(names@),
        _ => english_months(),
    }
}

/// Day and month as they are shown: the day counted from zero, so that the
/// first of a month reads `0`; one space; the month's short name.
pub open spec fn day_month_text(day0: u32, month0: u32, months: Seq<Seq<char>>) -> Seq<char>
    recommends
        month0 < months.len(),
{
    decimal_digits(day0 as nat) + seq![' '] + months[month0 as int]
}

/// Day and month of a modification time on the listing's clock; `None` where
/// the calendar has no date for it.
pub open spec fn date_text(mtime: i64, months: Seq<Seq<char>>) -> Option<Seq<char>> {
    match (local_day0(mtime, UTC_OFFSET_SECS), local_month0(mtime, UTC_OFFSET_SECS)) {
        (Some(day0), Some(month0)) => Some(day_month_text(day0, month0, months)),
        _ => None,
    }
}

/// Day and month of a modification time as they are painted: in blue, not
/// bold.
pub open spec fn painted_date_text(mtime: i64, months: Seq<Seq<char>>) -> Option<Seq<char>> {
    match date_text(mtime, months) {
        Some(date) => Some(painted(Color::Blue, false, date)),
        None => None,
    }
}

/// Writes a day and a month, both counted from zero.
pub fn format_day_month(day0: u32, month0: u32, months: &MonthNames) -> (text: String)
    requires
        month0 < 12,
    ensures
        text@ == day_month_text(day0, month0, months@),
{
    proof {
        reveal_strlit(" ");
    }
    let text = decimal(day0 as u64).concat(" ").concat(months.name(month0).as_str());
    assert(text@ =~= day_month_text(day0, month0, months@));
    text
}

/// Day and month of the modification time `mtime`, in seconds since the
/// start of 1970 in UTC, nine hours ahead of UTC. `None` for a time that the
/// calendar does not reach.
pub fn format_date(mtime: i64, months: &MonthNames) -> (text: Option<String>)
    ensures
        option_text(text) == date_text(mtime, months@),
{
    match (day0_at(mtime, UTC_OFFSET_SECS), month0_at(mtime, UTC_OFFSET_SECS)) {
        (Some(day0), Some(month0)) => Some(format_day_month(day0, month0, months)),
        _ => None,
    }
}

/// Day and month of the modification time `mtime`, painted blue; `None` for
/// a time that the calendar does not reach.
pub fn get_date_time(mtime: i64, months: &MonthNames) -> (text: Option<String>)
    ensures
        option_text(text) == painted_date_text(mtime, months@),
{
    match format_date(mtime, months) {
        Some(plain) => Some(paint(Color::Blue, plain.as_str())),
        None => None,
    }
}

/// The day is counted from zero: a modification time on the first day of a
/// month is written with the day `0`, whatever the month and its name.
pub proof fn lemma_first_of_month_reads_zero(mtime: i64, months: Seq<Seq<char>>)
    requires
        local_day0(mtime, UTC_OFFSET_SECS) == Some(0u32),
        local_month0(mtime, UTC_OFFSET_SECS) is Some,
    ensures
        date_text(mtime, months) == Some(
            seq!['0', ' '] + months[local_month0(mtime, UTC_OFFSET_SECS)->0 as int],
        ),
{
    let month0 = local_month0(mtime, UTC_OFFSET_SECS)->0;
    assert(decimal_digits(0) =~= seq!['0']);
    assert(day_month_text(0, month0, months) =~= seq!['0', ' '] + months[month0 as int]);
}

} // verus!
