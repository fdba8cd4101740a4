//! Reading the clock times of GTFS timetables (`hh:mm:ss`), where the hour
//! may run past midnight (`25:00:01` is one hour after midnight).

use vstd::prelude::*;
use vstd::string::*;

use chrono::NaiveTime;

use crate::text::{
    decimal, decimal_string, lemma_parse_u32_of_decimal, lemma_split_nonempty, parse_u32, parse_u32_spec, split_on, split_spec,
    string_views,
};

verus! {

#[verifier::external_type_specification]
#[verifier::external_body]
pub struct ExNaiveTime(chrono::NaiveTime);

/// The time of day that `chrono::NaiveTime::from_hms_opt` makes of valid
/// hour, minute and second values.
pub uninterp spec fn naive_time_hms(hour: u32, minute: u32, second: u32) -> NaiveTime;

/// Calls `chrono::NaiveTime::from_hms_opt`. As its source shows, it returns
/// `Some` exactly when `hour < 24`, `minute < 60` and `second < 60` (the
/// nanosecond part it passes on is zero), and the time it returns depends on
/// the three values alone.
#[verifier::external_body]
fn naive_time_from_hms(hour: u32, minute: u32, second: u32) -> (res: Option<NaiveTime>)
    ensures
        res is Some <==> (hour < 24 && minute < 60 && second < 60),
        res matches Some(t) ==> t == naive_time_hms(hour, minute, second),
{
    NaiveTime::from_hms_opt(hour, minute, second)
}

/// Why a clock time was refused.
#[derive(Debug)]
pub enum TimeParseError {
    /// The text does not have three `:`-separated fields.
    InvalidFormat { value: String },
    /// A field is not an unsigned number that fits in `u32`.
    InvalidNumber,
    /// The fields do not make a time of day (after the hour was wrapped).
    InvalidTime { hour: u32, minute: u32, second: u32 },
}

/// The plain values of a [`TimeParseError`].
pub enum TimeParseErrorView {
    InvalidFormat(Seq<char>),
    InvalidNumber,
    InvalidTime(u32, u32, u32),
}

impl View for TimeParseError {
    type V = TimeParseErrorView;

    open spec fn view(&self) -> TimeParseErrorView {
        match self {
            TimeParseError::InvalidFormat { value } => TimeParseErrorView::InvalidFormat(value@),
            TimeParseError::InvalidNumber => TimeParseErrorView::InvalidNumber,
            TimeParseError::InvalidTime { hour, minute, second } => TimeParseErrorView::InvalidTime(
                *hour,
                *minute,
                *second,
            ),
        }
    }
}

/// The hour, minute and second that a clock time reads as, before they are
/// checked to form a time of day: three `:`-separated unsigned numbers, the
/// hour taken modulo 24.
pub open spec fn clock_fields_spec(s: Seq<char>) -> Result<(u32, u32, u32), TimeParseErrorView> {
    let parts = split_spec(s, ':');
    if parts.len() != 3 {
        Err(TimeParseErrorView::InvalidFormat(s))
    } else {
        match (parse_u32_spec(parts[0]), parse_u32_spec(parts[1]), parse_u32_spec(parts[2])) {
            (Some(h), Some(m), Some(sec)) => Ok(((h % 24) as u32, m, sec)),
            _ => Err(TimeParseErrorView::InvalidNumber),
        }
    }
}

/// The hour, minute and second of a clock time, or why it is refused.
pub open spec fn clock_time_spec(s: Seq<char>) -> Result<(u32, u32, u32), TimeParseErrorView> {
    match clock_fields_spec(s) {
        Ok((h, m, sec)) => if h < 24 && m < 60 && sec < 60 {
            Ok((h, m, sec))
        } else {
            Err(TimeParseErrorView::InvalidTime(h, m, sec))
        },
        Err(e) => Err(e),
    }
}

/// Reads the fields of a clock time `hh:mm:ss`, wrapping the hour into the
/// day; the minute and second are not checked yet.
pub fn parse_clock_fields(value: &str) -> (res: Result<(u32, u32, u32), TimeParseError>)
    ensures
        match res {
            Ok(f) => clock_fields_spec(value@) == Ok::<(u32, u32, u32), TimeParseErrorView>(f),
            Err(e) => clock_fields_spec(value@) == Err::<(u32, u32, u32), TimeParseErrorView>(e@),
        },
{
    let parts = split_on(value, ':');
    assert(string_views(parts@).len() == parts@.len());
    if parts.len() != 3 {
        return Err(TimeParseError::InvalidFormat { value: value.to_owned() });
    }
    assert(string_views(parts@)[0] == parts@[0]@);
    assert(string_views(parts@)[1] == parts@[1]@);
    assert(string_views(parts@)[2] == parts@[2]@);
    let h = match parse_u32(parts[0].as_str()) {
        Some(h) => h % 24,
        None => {
            return Err(TimeParseError::InvalidNumber);
        },
    };
    let m = match parse_u32(parts[1].as_str()) {
        Some(m) => m,
        None => {
            return Err(TimeParseError::InvalidNumber);
        },
    };
    let s = match parse_u32(parts[2].as_str()) {
        Some(s) => s,
        None => {
            return Err(TimeParseError::InvalidNumber);
        },
    };
    Ok((h, m, s))
}

/// Reads a timetable clock time `hh:mm:ss` as a time of day. Hours past
/// midnight wrap around: `25:00:01` reads as `01:00:01`.
pub fn parse_messy_time(value: &str) -> (res: Result<NaiveTime, TimeParseError>)
    ensures
        match (res, clock_time_spec(value@)) {
            (Ok(t), Ok((h, m, s))) => t == naive_time_hms(h, m, s),
            (Err(e), Err(ev)) => e@ == ev,
            _ => false,
        },
{
    let (h, m, s) = parse_clock_fields(value)?;
    match naive_time_from_hms(h, m, s) {
        Some(t) => Ok(t),
        None => Err(TimeParseError::InvalidTime { hour: h, minute: m, second: s }),
    }
}

/// The message that a refused clock time is reported with.
pub open spec fn time_error_message(e: TimeParseErrorView) -> Seq<char> {
    match e {
        TimeParseErrorView::InvalidFormat(v) => "Invalid time `"@ + v
            + "` found. Expected hh:mm:ss format"@,
        TimeParseErrorView::InvalidNumber => "Cannot parse u32"@,
        TimeParseErrorView::InvalidTime(h, m, s) => "Could not assemble time from "@ + decimal(
            h as nat,
        ) + ":"@ + decimal(m as nat) + ":"@ + decimal(s as nat),
    }
}

impl TimeParseError {
    /// The message that the error is reported with.
    pub fn message(&self) -> (res: String)
        ensures
            res@ == time_error_message(self@),
    {
        match self {
            TimeParseError::InvalidFormat { value } => {
                let mut msg = "Invalid time `".to_owned();
                msg.append(value.as_str());
                msg.append("` found. Expected hh:mm:ss format");
                msg
            },
            TimeParseError::InvalidNumber => "Cannot parse u32".to_owned(),
            TimeParseError::InvalidTime { hour, minute, second } => {
                let mut msg = "Could not assemble time from ".to_owned();
                msg.append(decimal_string(*hour as u64).as_str());
                msg.append(":");
                msg.append(decimal_string(*minute as u64).as_str());
                msg.append(":");
                msg.append(decimal_string(*second as u64).as_str());
                msg
            },
        }
    }
}

/// Splitting a text that holds no separator gives the text itself.
proof fn lemma_split_without_sep(s: Seq<char>, sep: char)
    requires
        !s.contains(sep),
    ensures
        split_spec(s, sep) == seq![s],
    decreases s.len(),
{
    if s.len() > 0 {
        assert(!s.drop_last().contains(sep)) by {
            if s.drop_last().contains(sep) {
                let i = choose|i: int| 0 <= i < s.drop_last().len() && s.drop_last()[i] == sep;
                assert(s[i] == sep);
            }
        }
        lemma_split_without_sep(s.drop_last(), sep);
        assert(s.last() != sep) by {
            assert(s[s.len() - 1] == s.last());
        }
        assert(s.drop_last().push(s.last()) =~= s);
        assert(seq![s.drop_last()].update(0, s.drop_last().push(s.last())) =~= seq![s]);
    } else {
        assert(s =~= Seq::<char>::empty());
    }
}

/// Splitting at a separator splits each side of it on its own.
proof fn lemma_split_concat(x: Seq<char>, y: Seq<char>, sep: char)
    ensures
        split_spec(x + seq![sep] + y, sep) == split_spec(x, sep) + split_spec(y, sep),
    decreases y.len(),
{
    let xs = x + seq![sep];
    if y.len() == 0 {
        assert(x + seq![sep] + y =~= xs);
        assert(xs.drop_last() =~= x);
        assert(split_spec(x, sep).push(Seq::<char>::empty()) =~= split_spec(x, sep) + seq![
            Seq::<char>::empty(),
        ]);
    } else {
        let whole = x + seq![sep] + y;
        assert(whole.drop_last() =~= x + seq![sep] + y.drop_last());
        assert(whole.last() == y.last());
        lemma_split_concat(x, y.drop_last(), sep);
        lemma_split_nonempty(y.drop_last(), sep);
        let a = split_spec(x, sep);
        let b = split_spec(y.drop_last(), sep);
        if y.last() == sep {
            assert((a + b).push(Seq::<char>::empty()) =~= a + b.push(Seq::<char>::empty()));
        } else {
            assert((a + b).update((a + b).len() - 1, (a + b).last().push(y.last())) =~= a + b.update(
                b.len() - 1,
                b.last().push(y.last()),
            ));
        }
    }
}

/// A clock time written as three `:`-free fields reads field by field, the
/// hour modulo 24: `25:00:01` reads as hour 1, minute 0, second 1, and any
/// field that is not an unsigned number makes it an invalid number.
pub proof fn law_clock_fields_read_field_by_field(h: Seq<char>, m: Seq<char>, s: Seq<char>)
    requires
        !h.contains(':'),
        !m.contains(':'),
        !s.contains(':'),
    ensures
        clock_fields_spec(h + seq![':'] + m + seq![':'] + s) == match (
            parse_u32_spec(h),
            parse_u32_spec(m),
            parse_u32_spec(s),
        ) {
            (Some(hh), Some(mm), Some(ss)) => Ok::<(u32, u32, u32), TimeParseErrorView>(
                ((hh % 24) as u32, mm, ss),
            ),
            _ => Err(TimeParseErrorView::InvalidNumber),
        },
{
    lemma_split_without_sep(h, ':');
    lemma_split_without_sep(m, ':');
    lemma_split_without_sep(s, ':');
    lemma_split_concat(h + seq![':'] + m, s, ':');
    lemma_split_concat(h, m, ':');
    let parts = split_spec(h + seq![':'] + m + seq![':'] + s, ':');
    assert(parts =~= seq![h, m, s]);
}

/// A clock time whose three `:`-free fields read as the numbers `h`, `m`
/// and `s`, with `m` and `s` below 60, is the time of day with hour
/// `h % 24`, minute `m` and second `s`.
pub proof fn law_clock_time_of_three_fields(
    h: Seq<char>,
    m: Seq<char>,
    s: Seq<char>,
    hour: u32,
    minute: u32,
    second: u32,
)
    requires
        !h.contains(':'),
        !m.contains(':'),
        !s.contains(':'),
        parse_u32_spec(h) == Some(hour),
        parse_u32_spec(m) == Some(minute),
        parse_u32_spec(s) == Some(second),
        minute < 60,
        second < 60,
    ensures
        clock_time_spec(h + seq![':'] + m + seq![':'] + s) == Ok::<
            (u32, u32, u32),
            TimeParseErrorView,
        >(((hour % 24) as u32, minute, second)),
{
    law_clock_fields_read_field_by_field(h, m, s);
}

/// Writing any hour, a minute and a second below 60 in decimal as
/// `h:m:s` and reading it back gives hour `h % 24`, minute `m` and second
/// `s`; a minute or second of 60 or more is refused as no time of day.
pub proof fn law_written_time_reads_back(hour: u32, minute: u32, second: u32)
    ensures
        minute < 60 && second < 60 ==> clock_time_spec(
            decimal(hour as nat) + seq![':'] + decimal(minute as nat) + seq![':'] + decimal(
                second as nat,
            ),
        ) == Ok::<(u32, u32, u32), TimeParseErrorView>(((hour % 24) as u32, minute, second)),
        !(minute < 60 && second < 60) ==> clock_time_spec(
            decimal(hour as nat) + seq![':'] + decimal(minute as nat) + seq![':'] + decimal(
                second as nat,
            ),
        ) == Err::<(u32, u32, u32), TimeParseErrorView>(
            TimeParseErrorView::InvalidTime((hour % 24) as u32, minute, second),
        ),
{
    lemma_parse_u32_of_decimal(hour);
    lemma_parse_u32_of_decimal(minute);
    lemma_parse_u32_of_decimal(second);
    law_clock_fields_read_field_by_field(
        decimal(hour as nat),
        decimal(minute as nat),
        decimal(second as nat),
    );
}

/// Hours that differ by a whole day read the same: with the same minute and
/// second fields, an hour field denoting `h + 24` gives the same result as
/// one denoting `h`.
pub proof fn law_hours_a_day_apart_read_the_same(
    h1: Seq<char>,
    h2: Seq<char>,
    m: Seq<char>,
    s: Seq<char>,
    h: u32,
)
    requires
        !h1.contains(':'),
        !h2.contains(':'),
        !m.contains(':'),
        !s.contains(':'),
        parse_u32_spec(h1) == Some(h),
        parse_u32_spec(h2) == Some((h + 24) as u32),
        h + 24 <= u32::MAX,
    ensures
        clock_fields_spec(h1 + seq![':'] + m + seq![':'] + s) == clock_fields_spec(
            h2 + seq![':'] + m + seq![':'] + s,
        ),
        clock_time_spec(h1 + seq![':'] + m + seq![':'] + s) == clock_time_spec(
            h2 + seq![':'] + m + seq![':'] + s,
        ),
{
    law_clock_fields_read_field_by_field(h1, m, s);
    law_clock_fields_read_field_by_field(h2, m, s);
    assert((h + 24) % 24 == h % 24);
}

/// Every time that is read is a time of day.
pub proof fn law_clock_time_is_time_of_day(v: Seq<char>)
    ensures
        clock_time_spec(v) matches Ok((h, m, s)) ==> h < 24 && m < 60 && s < 60,
        clock_fields_spec(v) matches Ok((h, m, s)) ==> h < 24,
{
}

} // verus!
