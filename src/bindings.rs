//! The calls this library makes into other crates, each with the contract
//! that the library relies on.
use chrono::{Datelike, Timelike};
use rand::Rng;
use vstd::prelude::*;

verus! {

#[verifier::external_type_specification]
#[verifier::external_body]
pub struct ExRegex(regex::Regex);

#[verifier::external_type_specification]
#[verifier::external_body]
pub struct ExRegexError(regex::Error);

/// Whether `regex::Regex::new` accepts the pattern `p`.
pub uninterp spec fn regex_accepts(p: Seq<char>) -> bool;

/// What `regex::Regex::is_match` answers for the pattern `p` on `text`.
pub uninterp spec fn regex_finds(p: Seq<char>, text: Seq<char>) -> bool;

/// What `regex::Regex::replace_all` makes of `text` for the pattern `p` and
/// the replacement `rep`.
pub uninterp spec fn regex_replaced(p: Seq<char>, text: Seq<char>, rep: Seq<char>) -> Seq<char>;

/// What `meval::eval_str` gives for `expr`, the number or the error written
/// out as text.
pub uninterp spec fn meval_outcome(expr: Seq<char>) -> Result<Seq<char>, Seq<char>>;

/// The unified line diff that `similar` writes for `old` and `new` under the
/// header names `a` and `b`.
pub uninterp spec fn unified_diff_of(old: Seq<char>, new: Seq<char>, a: Seq<char>, b: Seq<char>) -> Seq<char>;

/// What `chrono::NaiveTime::parse_from_str(s, "%H:%M")` reads from `s`.
pub uninterp spec fn clock_time_of(s: Seq<char>) -> Option<(u32, u32)>;

/// A compiled regular expression together with the pattern it was built from.
pub struct Pattern {
    source: String,
    compiled: regex::Regex,
}

impl Pattern {
    /// The pattern text this expression was compiled from.
    pub closed spec fn source(&self) -> Seq<char> {
        self.source@
    }
}

/// Relies on `regex::Regex::new`: it succeeds exactly on the patterns it
/// accepts, and the compiled value matches by that pattern.
#[verifier::external_body]
pub(crate) fn compile_pattern(p: &str) -> (r: Result<Pattern, regex::Error>)
    ensures
        r is Ok <==> regex_accepts(p@),
        r matches Ok(pat) ==> pat.source() == p@,
{
    match regex::Regex::new(p) {
        Ok(re) => Ok(Pattern { source: p.to_string(), compiled: re }),
        Err(e) => Err(e),
    }
}

/// Relies on `regex::Error`'s `Display`: the message of a refused pattern.
#[verifier::external_body]
pub(crate) fn regex_error_text(e: &regex::Error) -> (r: String) {
    e.to_string()
}

/// Relies on `regex::Regex::is_match`: whether the pattern matches anywhere in `text`.
#[verifier::external_body]
pub(crate) fn pattern_finds(p: &Pattern, text: &str) -> (r: bool)
    ensures
        r == regex_finds(p.source(), text@),
{
    p.compiled.is_match(text)
}

/// Relies on `regex::Regex::replace_all`: every non-overlapping match
/// replaced, with `$name` references expanded; text without a match comes back unchanged.
#[verifier::external_body]
pub(crate) fn pattern_replace_all(p: &Pattern, text: &str, rep: &str) -> (r: String)
    ensures
        r@ == regex_replaced(p.source(), text@, rep@),
        !regex_finds(p.source(), text@) ==> r@ == text@,
{
    p.compiled.replace_all(text, rep).into_owned()
}

/// Whether `b` is an ASCII letter or digit.
pub open spec fn is_alphanumeric(c: char) -> bool {
    ('A' <= c && c <= 'Z') || ('a' <= c && c <= 'z') || ('0' <= c && c <= '9')
}

/// Relies on `rand::distributions::Alphanumeric` drawn from `rand::thread_rng`:
/// a byte among `A-Z`, `a-z` and `0-9`.
#[verifier::external_body]
pub(crate) fn random_alphanumeric() -> (r: char)
    ensures
        is_alphanumeric(r),
{
    char::from(rand::thread_rng().sample(rand::distributions::Alphanumeric))
}

/// The texts of a result, as sequences of characters.
pub open spec fn outcome_view(r: Result<String, String>) -> Result<Seq<char>, Seq<char>> {
    match r {
        Ok(v) => Ok(v@),
        Err(e) => Err(e@),
    }
}

/// Relies on `meval::eval_str`: the value of the expression written by
/// `ToString`, or the parse or evaluation error written by its `Display`.
#[verifier::external_body]
pub(crate) fn evaluate_expression(expr: &str) -> (r: Result<String, String>)
    ensures
        outcome_view(r) == meval_outcome(expr@),
{
    match meval::eval_str(expr) {
        Ok(v) => Ok(v.to_string()),
        Err(e) => Err(e.to_string()),
    }
}

/// Relies on `similar::TextDiff::from_lines(..).unified_diff().header(a, b)`
/// written out as text.
#[verifier::external_body]
pub(crate) fn unified_diff(old: &str, new: &str, a: &str, b: &str) -> (r: String)
    ensures
        r@ == unified_diff_of(old@, new@, a@, b@),
{
    similar::TextDiff::from_lines(old, new).unified_diff().header(a, b).to_string()
}

/// Relies on `chrono::NaiveTime::parse_from_str` with the format `%H:%M`:
/// the hour and minute read, each in its range.
#[verifier::external_body]
pub(crate) fn parse_clock_time(s: &str) -> (r: Option<(u32, u32)>)
    ensures
        r == clock_time_of(s@),
        r matches Some(t) ==> t.0 < 24 && t.1 < 60,
{
    match chrono::NaiveTime::parse_from_str(s, "%H:%M") {
        Ok(t) => Some((t.hour(), t.minute())),
        Err(_) => None,
    }
}

/// Whether `y` is a leap year of the proleptic Gregorian calendar.
pub open spec fn is_leap_year(y: int) -> bool {
    y % 4 == 0 && (y % 100 != 0 || y % 400 == 0)
}

/// The number of days of month `m` (1 to 12) of year `y`.
pub open spec fn days_in_month(y: int, m: int) -> int {
    if m == 2 {
        if is_leap_year(y) { 29 } else { 28 }
    } else if m == 4 || m == 6 || m == 9 || m == 11 {
        30
    } else {
        31
    }
}

/// The number of days from 1 March of year 0 to the given date of the
/// proleptic Gregorian calendar (negative before it).
pub open spec fn civil_day_number(y: int, m: int, d: int) -> int {
    let yy = if m <= 2 { y - 1 } else { y };
    let mp = (m + 9) % 12;
    365 * yy + yy / 4 - yy / 100 + yy / 400 + (153 * mp + 2) / 5 + d - 1
}

/// The weekday of a date, counted from Sunday (0 to 6); 1 March of year 0
/// was a Wednesday.
pub open spec fn weekday_of(y: int, m: int, d: int) -> int {
    (civil_day_number(y, m, d) + 3) % 7
}

/// A reading of the local clock: a calendar date, its weekday counted from
/// Sunday, and the time of day.
#[derive(Clone, Copy, Debug)]
pub struct ClockReading {
    pub year: i32,
    pub month: u32,
    pub day: u32,
    pub weekday: u32,
    pub hour: u32,
    pub minute: u32,
    pub second: u32,
}

impl ClockReading {
    /// A valid date and time of day.
    pub open spec fn wf(&self) -> bool {
        &&& 1 <= self.month <= 12
        &&& 1 <= self.day <= days_in_month(self.year as int, self.month as int)
        &&& self.weekday < 7
        &&& self.weekday as int == weekday_of(self.year as int, self.month as int, self.day as int)
        &&& self.hour < 24 && self.minute < 60 && self.second < 60
    }
}

/// Relies on `chrono::Local::now`: the current local date (a valid date of
/// the proleptic Gregorian calendar), the weekday of that date from Sunday
/// (0 to 6), which `Datelike::weekday` computes from the date itself, and
/// the time of day with seconds from 0 to 59.
#[verifier::external_body]
pub(crate) fn read_clock() -> (r: ClockReading)
    ensures
        r.wf(),
{
    let now = chrono::Local::now();
    ClockReading {
        year: now.year(),
        month: now.month(),
        day: now.day(),
        weekday: now.weekday().num_days_from_sunday(),
        hour: now.hour(),
        minute: now.minute(),
        second: now.second(),
    }
}

} // verus!
