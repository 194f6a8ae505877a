//! Closed, payload-free diagnostics of the sidecar itself.
//!
//! A diagnostic is one line of JSON with a fixed set of members. Nothing in it comes
//! from a request, a configuration value or an error: it names a service, what the
//! sidecar was doing and how that ended.

use crate::health::{flag_json, flag_text};
use crate::text::{
    append_text, byte_length, chars_of, decimal, digits_value, is_ascii_alphanumeric, law_decimal,
    law_zero_filled, padded_decimal_text, zero_filled,
};
use vstd::prelude::*;

verus! {

pub const SCHEMA: &'static str = "ores.otel.log/internal-diagnostic/v1";

pub const FALLBACK_SERVICE: &'static str = "ores-otel-sidecar";

pub const MAX_SERVICE_BYTES: usize = 128;

#[derive(Clone, Copy, Debug, PartialEq, Eq, Structural)]
pub enum Severity {
    Warn,
    Error,
    Fatal,
}

#[derive(Clone, Copy, Debug, PartialEq, Eq, Structural)]
pub enum Operation {
    SidecarConfigure,
    SidecarListen,
    SidecarProbe,
}

#[derive(Clone, Copy, Debug, PartialEq, Eq, Structural)]
pub enum Outcome {
    Failed,
    Rejected,
}

impl Severity {
    pub open spec fn text(self) -> Seq<char> {
        match self {
            Severity::Warn => "warn"@,
            Severity::Error => "error"@,
            Severity::Fatal => "fatal"@,
        }
    }

    pub fn name(self) -> (name: &'static str)
        ensures
            name@ == self.text(),
    {
        match self {
            Severity::Warn => "warn",
            Severity::Error => "error",
            Severity::Fatal => "fatal",
        }
    }
}

impl Operation {
    pub open spec fn text(self) -> Seq<char> {
        match self {
            Operation::SidecarConfigure => "sidecar_configure"@,
            Operation::SidecarListen => "sidecar_listen"@,
            Operation::SidecarProbe => "sidecar_probe"@,
        }
    }

    pub fn name(self) -> (name: &'static str)
        ensures
            name@ == self.text(),
    {
        match self {
            Operation::SidecarConfigure => "sidecar_configure",
            Operation::SidecarListen => "sidecar_listen",
            Operation::SidecarProbe => "sidecar_probe",
        }
    }
}

impl Outcome {
    pub open spec fn text(self) -> Seq<char> {
        match self {
            Outcome::Failed => "failed"@,
            Outcome::Rejected => "rejected"@,
        }
    }

    pub fn name(self) -> (name: &'static str)
        ensures
            name@ == self.text(),
    {
        match self {
            Outcome::Failed => "failed",
            Outcome::Rejected => "rejected",
        }
    }
}

/// A service name that may be shown: short, of letters and digits, and after the first
/// character also of `.`, `_` and `-`.
pub open spec fn presentable(service: Seq<char>) -> bool {
    &&& 0 < service.len() <= MAX_SERVICE_BYTES
    &&& forall|i: int|
        0 <= i < service.len() ==> is_ascii_alphanumeric(#[trigger] service[i]) || (i > 0 && (
        service[i] == '.' || service[i] == '_' || service[i] == '-'))
}

fn is_alphanumeric(c: char) -> (b: bool)
    ensures
        b == is_ascii_alphanumeric(c),
{
    ('A' <= c && c <= 'Z') || ('a' <= c && c <= 'z') || ('0' <= c && c <= '9')
}

pub fn valid_service(service: &str) -> (valid: bool)
    ensures
        valid == presentable(service@),
{
    let chars = chars_of(service);
    if chars.len() == 0 || chars.len() > MAX_SERVICE_BYTES {
        return false;
    }
    let mut i: usize = 0;
    while i < chars.len()
        invariant
            chars@ == service@,
            i <= chars@.len(),
            forall|j: int|
                0 <= j < i ==> is_ascii_alphanumeric(#[trigger] service@[j]) || (j > 0 && (
                service@[j] == '.' || service@[j] == '_' || service@[j] == '-')),
        decreases chars@.len() - i,
    {
        let c = chars[i];
        if !is_alphanumeric(c) && !(i > 0 && (c == '.' || c == '_' || c == '-')) {
            return false;
        }
        i = i + 1;
    }
    true
}

/// A moment in UTC, to the millisecond.
#[derive(Clone, Copy, Debug, PartialEq, Eq, Structural)]
pub struct Calendar {
    pub year: i32,
    pub month: u8,
    pub day: u8,
    pub hour: u8,
    pub minute: u8,
    pub second: u8,
    pub millisecond: u16,
}

impl Calendar {
    /// The parts of a moment that the Gregorian calendar has, in four-digit years.
    pub open spec fn in_range(self) -> bool {
        &&& -9999 <= self.year <= 9999
        &&& 1 <= self.month <= 12
        &&& 1 <= self.day <= 31
        &&& self.hour < 24
        &&& self.minute < 60
        &&& self.second < 60
        &&& self.millisecond < 1000
    }
}

/// A year of the Gregorian calendar with a leap day.
pub open spec fn leap_year(year: int) -> bool {
    year % 4 == 0 && (year % 100 != 0 || year % 400 == 0)
}

pub open spec fn month_length(year: int, month: int) -> int {
    if month == 2 {
        if leap_year(year) {
            29
        } else {
            28
        }
    } else if month == 4 || month == 6 || month == 9 || month == 11 {
        30
    } else {
        31
    }
}

/// The days of `year` before its `month`.
pub open spec fn days_before_month(year: int, month: int) -> int
    decreases month,
{
    if month <= 1 {
        0
    } else {
        days_before_month(year, month - 1) + month_length(year, month - 1)
    }
}

/// The leap days from the year 1 to the start of `year`.
pub open spec fn leap_days(year: int) -> int {
    (year - 1) / 4 - (year - 1) / 100 + (year - 1) / 400
}

/// The number of the first day of `year`, counted from the first of 1970.
pub open spec fn first_day(year: int) -> int {
    365 * (year - 1970) + leap_days(year) - leap_days(1970)
}

impl Calendar {
    /// The date is that of the day with `number`, counted from the first of 1970.
    pub open spec fn falls_on(self, number: int) -> bool {
        &&& self.day <= month_length(self.year as int, self.month as int)
        &&& first_day(self.year as int) + days_before_month(self.year as int, self.month as int)
            + self.day - 1 == number
    }

    /// This is the moment that many nanoseconds after the start of 1970, without what is
    /// shorter than a millisecond.
    pub open spec fn shows(self, nanoseconds: int) -> bool {
        let seconds = nanoseconds / 1_000_000_000;
        &&& self.in_range()
        &&& self.falls_on(seconds / 86_400)
        &&& self.hour == seconds % 86_400 / 3_600
        &&& self.minute == seconds % 3_600 / 60
        &&& self.second == seconds % 60
        &&& self.millisecond == nanoseconds % 1_000_000_000 / 1_000_000
    }
}

/// The first second of the year -9999, counted from the start of 1970.
pub const FIRST_SECOND: i128 = -377_705_116_800;

/// The last second of the year 9999, counted from the start of 1970.
pub const LAST_SECOND: i128 = 253_402_300_799;

/// The calendar reaches the moment that many nanoseconds after the start of 1970.
pub open spec fn reached(nanoseconds: int) -> bool {
    FIRST_SECOND <= nanoseconds / 1_000_000_000 <= LAST_SECOND
}

/// Calls `time::OffsetDateTime::from_unix_timestamp_nanos` and reads the parts of what it
/// returns. It succeeds from the start of the year -9999 to the end of the year 9999 and
/// nowhere else; the date is that of the day in the Gregorian calendar, and the time of day
/// is counted from midnight UTC.
#[verifier::external_body]
pub(crate) fn calendar_at(nanoseconds: i128) -> (calendar: Option<Calendar>)
    ensures
        calendar is Some <==> reached(nanoseconds as int),
        calendar matches Some(now) ==> now.shows(nanoseconds as int),
{
    let now = time::OffsetDateTime::from_unix_timestamp_nanos(nanoseconds).ok()?;
    Some(
        Calendar {
            year: now.year(),
            month: u8::from(now.month()),
            day: now.day(),
            hour: now.hour(),
            minute: now.minute(),
            second: now.second(),
            millisecond: now.millisecond(),
        },
    )
}

proof fn lemma_december(year: int)
    ensures
        days_before_month(year, 12) == (if leap_year(year) {
            335int
        } else {
            334int
        }),
{
    assert(days_before_month(year, 1) == 0);
    assert(days_before_month(year, 2) == 31);
    let leap_day: int = if leap_year(year) {
        1
    } else {
        0
    };
    assert(days_before_month(year, 3) == 59 + leap_day);
    assert(days_before_month(year, 4) == 90 + leap_day);
    assert(days_before_month(year, 5) == 120 + leap_day);
    assert(days_before_month(year, 6) == 151 + leap_day);
    assert(days_before_month(year, 7) == 181 + leap_day);
    assert(days_before_month(year, 8) == 212 + leap_day);
    assert(days_before_month(year, 9) == 243 + leap_day);
    assert(days_before_month(year, 10) == 273 + leap_day);
    assert(days_before_month(year, 11) == 304 + leap_day);
}

/// The count of days starts with 1970, and a year comes right behind the one before it, with
/// one day more where that one can be divided by four and not by a hundred, or by four hundred.
pub proof fn law_years_follow_each_other(year: int)
    ensures
        first_day(1970) == 0,
        first_day(year + 1) == first_day(year) + days_before_month(year, 12) + 31,
        first_day(year + 1) - first_day(year) == (if year % 400 == 0 || (year % 4 == 0 && year % 100
            != 0) {
            366int
        } else {
            365int
        }),
{
    lemma_december(year);
    assert(year / 4 - (year - 1) / 4 == (if year % 4 == 0 {
        1int
    } else {
        0int
    }));
    assert(year / 100 - (year - 1) / 100 == (if year % 100 == 0 {
        1int
    } else {
        0int
    }));
    assert(year / 400 - (year - 1) / 400 == (if year % 400 == 0 {
        1int
    } else {
        0int
    }));
}

proof fn lemma_years_grow(year: int, later: int)
    requires
        year < later,
    ensures
        first_day(later) >= first_day(year) + days_before_month(year, 12) + 31,
    decreases later - year,
{
    law_years_follow_each_other(year);
    if year + 1 < later {
        lemma_years_grow(year + 1, later);
        lemma_december(year + 1);
    }
}

proof fn lemma_months_grow(year: int, month: int, later: int)
    requires
        1 <= month < later,
    ensures
        days_before_month(year, later) >= days_before_month(year, month) + month_length(
            year,
            month,
        ),
    decreases later - month,
{
    if month + 1 < later {
        lemma_months_grow(year, month, later - 1);
    }
}

/// A date that comes before another has the smaller day number.
proof fn lemma_dates_grow(a: Calendar, b: Calendar, m: int, n: int)
    requires
        a.in_range(),
        b.in_range(),
        a.falls_on(m),
        b.falls_on(n),
        a.year < b.year || (a.year == b.year && a.month < b.month) || (a.year == b.year && a.month
            == b.month && a.day < b.day),
    ensures
        m < n,
{
    let year = a.year as int;
    if a.year < b.year {
        lemma_years_grow(year, b.year as int);
        if a.month < 12 {
            lemma_months_grow(year, a.month as int, 12);
        }
        reveal_with_fuel(days_before_month, 13);
        assert(days_before_month(b.year as int, b.month as int) >= 0);
    } else if a.month < b.month {
        lemma_months_grow(year, a.month as int, b.month as int);
    }
}

/// A moment has one date and one time of day.
pub proof fn law_moments_are_unique(a: Calendar, b: Calendar, nanoseconds: int)
    requires
        a.shows(nanoseconds),
        b.shows(nanoseconds),
    ensures
        a == b,
{
    let day = nanoseconds / 1_000_000_000 / 86_400;
    if (a.year, a.month, a.day) != (b.year, b.month, b.day) {
        if a.year < b.year || (a.year == b.year && a.month < b.month) || (a.year == b.year
            && a.month == b.month && a.day < b.day) {
            lemma_dates_grow(a, b, day, day);
        } else {
            lemma_dates_grow(b, a, day, day);
        }
    }
}

/// A year in four characters, one of them the sign where it is negative.
pub open spec fn year_text(year: int) -> Seq<char> {
    if year < 0 {
        "-"@ + zero_filled(decimal((-year) as nat), 3)
    } else {
        zero_filled(decimal(year as nat), 4)
    }
}

/// A number in at least so many digits.
pub open spec fn digits(n: nat, width: nat) -> Seq<char> {
    zero_filled(decimal(n), width)
}

/// The moment as it is written: date, time and milliseconds, in UTC.
pub open spec fn timestamp_text(now: Calendar) -> Seq<char> {
    year_text(now.year as int) + "-"@ + digits(now.month as nat, 2) + "-"@ + digits(
        now.day as nat,
        2,
    ) + "T"@ + digits(now.hour as nat, 2) + ":"@ + digits(now.minute as nat, 2) + ":"@ + digits(
        now.second as nat,
        2,
    ) + "."@ + digits(now.millisecond as nat, 3) + "Z"@
}

fn written_year(year: i32) -> (text: String)
    ensures
        text@ == year_text(year as int),
{
    if year < 0 {
        let magnitude: u64 = (-(year as i64)) as u64;
        append_text("-".to_owned(), padded_decimal_text(magnitude, 3).as_str())
    } else {
        padded_decimal_text(year as u64, 4)
    }
}

pub fn timestamp(now: Calendar) -> (text: String)
    ensures
        text@ == timestamp_text(now),
{
    let text = append_text(written_year(now.year), "-");
    let text = append_text(text, padded_decimal_text(now.month as u64, 2).as_str());
    let text = append_text(text, "-");
    let text = append_text(text, padded_decimal_text(now.day as u64, 2).as_str());
    let text = append_text(text, "T");
    let text = append_text(text, padded_decimal_text(now.hour as u64, 2).as_str());
    let text = append_text(text, ":");
    let text = append_text(text, padded_decimal_text(now.minute as u64, 2).as_str());
    let text = append_text(text, ":");
    let text = append_text(text, padded_decimal_text(now.second as u64, 2).as_str());
    let text = append_text(text, ".");
    let text = append_text(text, padded_decimal_text(now.millisecond as u64, 3).as_str());
    append_text(text, "Z")
}

/// The name under which a service is shown.
pub open spec fn shown_service(service: Seq<char>) -> Seq<char> {
    if presentable(service) {
        service
    } else {
        FALLBACK_SERVICE@
    }
}

/// One diagnostic, as a line of JSON.
pub open spec fn diagnostic_text(
    service: Seq<char>,
    severity: Severity,
    operation: Operation,
    outcome: Outcome,
    retryable: bool,
    now: Calendar,
) -> Seq<char> {
    "{\"schema\":\""@ + SCHEMA@ + "\",\"timestamp\":\""@ + timestamp_text(now)
        + "\",\"service\":\""@ + shown_service(service) + "\",\"severity\":\""@ + severity.text()
        + "\",\"component\":\"sidecar\",\"operation\":\""@ + operation.text()
        + "\",\"outcome\":\""@ + outcome.text() + "\",\"retryable\":"@ + flag_text(retryable)
        + ",\"attempt\":0,\"dropped\":0,\"suppressed\":0,\"suppressionSaturated\":false}\n"@
}

/// Write one diagnostic. A service name that may not be shown is replaced.
pub fn diagnostic_line(
    service: &str,
    severity: Severity,
    operation: Operation,
    outcome: Outcome,
    retryable: bool,
    now: Calendar,
) -> (line: String)
    ensures
        line@ == diagnostic_text(service@, severity, operation, outcome, retryable, now),
{
    let shown = if valid_service(service) {
        service
    } else {
        FALLBACK_SERVICE
    };
    let line = append_text("{\"schema\":\"".to_owned(), SCHEMA);
    let line = append_text(line, "\",\"timestamp\":\"");
    let line = append_text(line, timestamp(now).as_str());
    let line = append_text(line, "\",\"service\":\"");
    let line = append_text(line, shown);
    let line = append_text(line, "\",\"severity\":\"");
    let line = append_text(line, severity.name());
    let line = append_text(line, "\",\"component\":\"sidecar\",\"operation\":\"");
    let line = append_text(line, operation.name());
    let line = append_text(line, "\",\"outcome\":\"");
    let line = append_text(line, outcome.name());
    let line = append_text(line, "\",\"retryable\":");
    let line = append_text(line, flag_json(retryable));
    append_text(
        line,
        ",\"attempt\":0,\"dropped\":0,\"suppressed\":0,\"suppressionSaturated\":false}\n",
    )
}

/// Write one diagnostic for the moment that many nanoseconds after the start of 1970.
/// There is none for a moment that the calendar does not reach.
pub fn diagnostic_at(
    service: &str,
    severity: Severity,
    operation: Operation,
    outcome: Outcome,
    retryable: bool,
    nanoseconds: i128,
) -> (line: Option<String>)
    ensures
        line is Some <==> reached(nanoseconds as int),
        line matches Some(text) ==> exists|now: Calendar| #[trigger]
            now.shows(nanoseconds as int) && text@ == diagnostic_text(
                service@,
                severity,
                operation,
                outcome,
                retryable,
                now,
            ),
{
    match calendar_at(nanoseconds) {
        Some(now) => Some(
            diagnostic_line(service, severity, operation, outcome, retryable, now),
        ),
        None => None,
    }
}

/// A service name that may not be shown leaves no trace: the line is that of the
/// fallback name.
pub proof fn law_unpresentable_service_leaves_no_trace(
    service: Seq<char>,
    other: Seq<char>,
    severity: Severity,
    operation: Operation,
    outcome: Outcome,
    retryable: bool,
    now: Calendar,
)
    requires
        !presentable(service),
        !presentable(other),
    ensures
        diagnostic_text(service, severity, operation, outcome, retryable, now) == diagnostic_text(
            other,
            severity,
            operation,
            outcome,
            retryable,
            now,
        ),
{
}

/// Some text of no more than so many characters, all of them ASCII.
pub open spec fn bounded(text: Seq<char>, length: nat) -> bool {
    text.len() <= length && vstd::utf8::is_ascii_chars(text)
}

proof fn lemma_bounded_join(a: Seq<char>, b: Seq<char>, m: nat, n: nat)
    requires
        bounded(a, m),
        bounded(b, n),
    ensures
        bounded(a + b, m + n),
{
}

spec fn power_of_ten(width: nat) -> nat
    decreases width,
{
    if width == 0 {
        1
    } else {
        10 * power_of_ten((width - 1) as nat)
    }
}

proof fn lemma_decimal_bounded(n: nat, width: nat)
    requires
        width > 0,
        n < power_of_ten(width),
    ensures
        bounded(decimal(n), width),
    decreases n,
{
    if n >= 10 {
        assert(width > 1) by {
            reveal_with_fuel(power_of_ten, 2);
        }
        assert(n / 10 < power_of_ten((width - 1) as nat));
        lemma_decimal_bounded(n / 10, (width - 1) as nat);
    }
}

proof fn lemma_zero_filled_bounded(text: Seq<char>, width: nat)
    requires
        bounded(text, width),
    ensures
        bounded(zero_filled(text, width), width),
    decreases width - text.len(),
{
    if text.len() < width {
        lemma_zero_filled_bounded(seq!['0'] + text, width);
    }
}

proof fn lemma_digits_bounded(n: nat, width: nat)
    requires
        width > 0,
        n < power_of_ten(width),
    ensures
        bounded(digits(n, width), width),
{
    lemma_decimal_bounded(n, width);
    lemma_zero_filled_bounded(decimal(n), width);
}

proof fn lemma_timestamp_bounded(now: Calendar)
    requires
        now.in_range(),
    ensures
        bounded(timestamp_text(now), 32),
{
    reveal_with_fuel(power_of_ten, 5);
    reveal_strlit("-");
    reveal_strlit("T");
    reveal_strlit(":");
    reveal_strlit(".");
    reveal_strlit("Z");
    let year = year_text(now.year as int);
    if now.year < 0 {
        lemma_decimal_bounded((-now.year) as nat, 4);
        lemma_zero_filled_at_most((decimal((-now.year) as nat)), 3, 4);
        lemma_bounded_join("-"@, zero_filled(decimal((-now.year) as nat), 3), 1, 4);
    } else {
        lemma_digits_bounded(now.year as nat, 4);
    }
    assert(bounded(year, 5));
    lemma_digits_bounded(now.month as nat, 2);
    lemma_digits_bounded(now.day as nat, 2);
    lemma_digits_bounded(now.hour as nat, 2);
    lemma_digits_bounded(now.minute as nat, 2);
    lemma_digits_bounded(now.second as nat, 2);
    lemma_digits_bounded(now.millisecond as nat, 3);
    let t1 = year + "-"@;
    lemma_bounded_join(year, "-"@, 5, 1);
    let t2 = t1 + digits(now.month as nat, 2);
    lemma_bounded_join(t1, digits(now.month as nat, 2), 6, 2);
    let t3 = t2 + "-"@;
    lemma_bounded_join(t2, "-"@, 8, 1);
    let t4 = t3 + digits(now.day as nat, 2);
    lemma_bounded_join(t3, digits(now.day as nat, 2), 9, 2);
    let t5 = t4 + "T"@;
    lemma_bounded_join(t4, "T"@, 11, 1);
    let t6 = t5 + digits(now.hour as nat, 2);
    lemma_bounded_join(t5, digits(now.hour as nat, 2), 12, 2);
    let t7 = t6 + ":"@;
    lemma_bounded_join(t6, ":"@, 14, 1);
    let t8 = t7 + digits(now.minute as nat, 2);
    lemma_bounded_join(t7, digits(now.minute as nat, 2), 15, 2);
    let t9 = t8 + ":"@;
    lemma_bounded_join(t8, ":"@, 17, 1);
    let t10 = t9 + digits(now.second as nat, 2);
    lemma_bounded_join(t9, digits(now.second as nat, 2), 18, 2);
    let t11 = t10 + "."@;
    lemma_bounded_join(t10, "."@, 20, 1);
    let t12 = t11 + digits(now.millisecond as nat, 3);
    lemma_bounded_join(t11, digits(now.millisecond as nat, 3), 21, 3);
    lemma_bounded_join(t12, "Z"@, 24, 1);
}

proof fn lemma_zero_filled_at_most(text: Seq<char>, width: nat, length: nat)
    requires
        bounded(text, length),
        width <= length,
    ensures
        bounded(zero_filled(text, width), length),
    decreases width - text.len(),
{
    if text.len() < width {
        lemma_zero_filled_at_most(seq!['0'] + text, width, length);
    }
}

proof fn lemma_names_bounded(
    service: Seq<char>,
    severity: Severity,
    operation: Operation,
    outcome: Outcome,
    retryable: bool,
)
    ensures
        bounded(shown_service(service), 128),
        bounded(severity.text(), 8),
        bounded(operation.text(), 20),
        bounded(outcome.text(), 8),
        bounded(flag_text(retryable), 8),
{
    reveal_strlit("ores-otel-sidecar");
    reveal_strlit("warn");
    reveal_strlit("error");
    reveal_strlit("fatal");
    reveal_strlit("sidecar_configure");
    reveal_strlit("sidecar_listen");
    reveal_strlit("sidecar_probe");
    reveal_strlit("failed");
    reveal_strlit("rejected");
    reveal_strlit("true");
    reveal_strlit("false");
}

/// A diagnostic of a moment that the calendar reaches stays below half a kibibyte.
pub proof fn law_diagnostics_are_bounded(
    service: Seq<char>,
    severity: Severity,
    operation: Operation,
    outcome: Outcome,
    retryable: bool,
    now: Calendar,
)
    requires
        now.in_range(),
    ensures
        byte_length(
            diagnostic_text(service, severity, operation, outcome, retryable, now),
        ) < 512,
{
    lemma_names_bounded(service, severity, operation, outcome, retryable);
    lemma_timestamp_bounded(now);
    reveal_strlit("ores.otel.log/internal-diagnostic/v1");
    reveal_strlit("{\"schema\":\"");
    reveal_strlit("\",\"timestamp\":\"");
    reveal_strlit("\",\"service\":\"");
    reveal_strlit("\",\"severity\":\"");
    reveal_strlit("\",\"component\":\"sidecar\",\"operation\":\"");
    reveal_strlit("\",\"outcome\":\"");
    reveal_strlit("\",\"retryable\":");
    reveal_strlit(
        ",\"attempt\":0,\"dropped\":0,\"suppressed\":0,\"suppressionSaturated\":false}\n",
    );
    let t1 = "{\"schema\":\""@ + SCHEMA@;
    lemma_bounded_join("{\"schema\":\""@, SCHEMA@, 16, 40);
    let t2 = t1 + "\",\"timestamp\":\""@;
    lemma_bounded_join(t1, "\",\"timestamp\":\""@, 56, 16);
    let t3 = t2 + timestamp_text(now);
    lemma_bounded_join(t2, timestamp_text(now), 72, 32);
    let t4 = t3 + "\",\"service\":\""@;
    lemma_bounded_join(t3, "\",\"service\":\""@, 104, 16);
    let t5 = t4 + shown_service(service);
    lemma_bounded_join(t4, shown_service(service), 120, 128);
    let t6 = t5 + "\",\"severity\":\""@;
    lemma_bounded_join(t5, "\",\"severity\":\""@, 248, 16);
    let t7 = t6 + severity.text();
    lemma_bounded_join(t6, severity.text(), 264, 8);
    let t8 = t7 + "\",\"component\":\"sidecar\",\"operation\":\""@;
    lemma_bounded_join(t7, "\",\"component\":\"sidecar\",\"operation\":\""@, 272, 40);
    let t9 = t8 + operation.text();
    lemma_bounded_join(t8, operation.text(), 312, 20);
    let t10 = t9 + "\",\"outcome\":\""@;
    lemma_bounded_join(t9, "\",\"outcome\":\""@, 332, 16);
    let t11 = t10 + outcome.text();
    lemma_bounded_join(t10, outcome.text(), 348, 8);
    let t12 = t11 + "\",\"retryable\":"@;
    lemma_bounded_join(t11, "\",\"retryable\":"@, 356, 16);
    let t13 = t12 + flag_text(retryable);
    lemma_bounded_join(t12, flag_text(retryable), 372, 8);
    lemma_bounded_join(
        t13,
        ",\"attempt\":0,\"dropped\":0,\"suppressed\":0,\"suppressionSaturated\":false}\n"@,
        380,
        80,
    );
    vstd::utf8::is_ascii_chars_encode_utf8(
        diagnostic_text(service, severity, operation, outcome, retryable, now),
    );
}

/// A service is shown exactly where its name is short and made of letters, digits and, behind
/// the first character, `.`, `_` and `-`; every other name is replaced.
pub proof fn law_which_services_are_shown(service: Seq<char>)
    ensures
        ({
            let fine = 1 <= service.len() <= 128 && forall|i: int|
                0 <= i < service.len() ==> {
                    ||| 'a' <= #[trigger] service[i] <= 'z'
                    ||| 'A' <= service[i] <= 'Z'
                    ||| '0' <= service[i] <= '9'
                    ||| i != 0 && (service[i] == '.' || service[i] == '_' || service[i] == '-')
                };
            &&& fine ==> shown_service(service) == service
            &&& !fine ==> shown_service(service) == "ores-otel-sidecar"@
        }),
{
}

proof fn lemma_leading_zero(s: Seq<char>)
    ensures
        digits_value(seq!['0'] + s) == digits_value(s),
    decreases s.len(),
{
    let longer = seq!['0'] + s;
    if s.len() == 0 {
        assert(longer.drop_last() =~= Seq::<char>::empty());
        assert(digits_value(longer) == 0) by {
            reveal_with_fuel(digits_value, 2);
        }
    } else {
        lemma_leading_zero(s.drop_last());
        assert(longer.drop_last() =~= seq!['0'] + s.drop_last());
    }
}

proof fn lemma_filled_value(s: Seq<char>, width: nat)
    ensures
        digits_value(zero_filled(s, width)) == digits_value(s),
    decreases width - s.len(),
{
    if s.len() < width {
        lemma_leading_zero(s);
        lemma_filled_value(seq!['0'] + s, width);
    }
}

proof fn lemma_digits_read_back(n: nat, width: nat)
    requires
        width > 0,
        n < power_of_ten(width),
    ensures
        digits(n, width).len() == width,
        digits_value(digits(n, width)) == n,
{
    law_decimal(n);
    lemma_decimal_bounded(n, width);
    law_zero_filled(decimal(n), width);
    lemma_filled_value(decimal(n), width);
}

/// A timestamp reads back: its parts stand in their places, filled with zeros, between the
/// separators of a date and a time in UTC.
pub proof fn law_timestamps_read_back(now: Calendar)
    requires
        now.in_range(),
        now.year >= 0,
    ensures
        ({
            let text = timestamp_text(now);
            &&& text.len() == 24
            &&& digits_value(text.subrange(0, 4)) == now.year
            &&& digits_value(text.subrange(5, 7)) == now.month
            &&& digits_value(text.subrange(8, 10)) == now.day
            &&& digits_value(text.subrange(11, 13)) == now.hour
            &&& digits_value(text.subrange(14, 16)) == now.minute
            &&& digits_value(text.subrange(17, 19)) == now.second
            &&& digits_value(text.subrange(20, 23)) == now.millisecond
            &&& text[4] == '-' && text[7] == '-' && text[10] == 'T'
            &&& text[13] == ':' && text[16] == ':' && text[19] == '.' && text[23] == 'Z'
        }),
{
    reveal_with_fuel(power_of_ten, 5);
    reveal_strlit("-");
    reveal_strlit("T");
    reveal_strlit(":");
    reveal_strlit(".");
    reveal_strlit("Z");
    lemma_digits_read_back(now.year as nat, 4);
    lemma_digits_read_back(now.month as nat, 2);
    lemma_digits_read_back(now.day as nat, 2);
    lemma_digits_read_back(now.hour as nat, 2);
    lemma_digits_read_back(now.minute as nat, 2);
    lemma_digits_read_back(now.second as nat, 2);
    lemma_digits_read_back(now.millisecond as nat, 3);
    let text = timestamp_text(now);
    assert(text.subrange(0, 4) =~= digits(now.year as nat, 4));
    assert(text.subrange(5, 7) =~= digits(now.month as nat, 2));
    assert(text.subrange(8, 10) =~= digits(now.day as nat, 2));
    assert(text.subrange(11, 13) =~= digits(now.hour as nat, 2));
    assert(text.subrange(14, 16) =~= digits(now.minute as nat, 2));
    assert(text.subrange(17, 19) =~= digits(now.second as nat, 2));
    assert(text.subrange(20, 23) =~= digits(now.millisecond as nat, 3));
}

/// A year before the year zero is written with its sign and at least three digits, and the
/// rest of the moment as after it.
pub proof fn law_negative_years(now: Calendar, positive: Calendar)
    requires
        now.in_range(),
        now.year < 0,
        positive == (Calendar { year: 0, ..now }),
    ensures
        ({
            let text = timestamp_text(now);
            let (rest, tail) = (timestamp_text(positive).skip(4), text.len() - 20);
            &&& text[0] == '-'
            &&& tail >= 4
            &&& text.skip(tail) == rest
            &&& digits_value(text.subrange(1, tail)) == -now.year
        }),
{
    reveal_with_fuel(power_of_ten, 5);
    reveal_strlit("-");
    reveal_strlit("T");
    reveal_strlit(":");
    reveal_strlit(".");
    reveal_strlit("Z");
    let magnitude = (-now.year) as nat;
    law_decimal(magnitude);
    law_zero_filled(decimal(magnitude), 3);
    lemma_filled_value(decimal(magnitude), 3);
    lemma_digits_read_back(0, 4);
    lemma_digits_read_back(now.month as nat, 2);
    lemma_digits_read_back(now.day as nat, 2);
    lemma_digits_read_back(now.hour as nat, 2);
    lemma_digits_read_back(now.minute as nat, 2);
    lemma_digits_read_back(now.second as nat, 2);
    lemma_digits_read_back(now.millisecond as nat, 3);
    let text = timestamp_text(now);
    let width = zero_filled(decimal(magnitude), 3).len() as int;
    assert(text.subrange(1, 1 + width) =~= zero_filled(decimal(magnitude), 3));
    assert(text.skip(1 + width) =~= timestamp_text(positive).skip(4));
}

/// A diagnostic says when which service did what, how it ended and whether it may be tried
/// again, and beyond that nothing that varies.
pub proof fn law_what_diagnostics_say(
    service: Seq<char>,
    severity: Severity,
    operation: Operation,
    outcome: Outcome,
    retryable: bool,
    now: Calendar,
)
    ensures
        diagnostic_text(service, severity, operation, outcome, retryable, now)
            == "{\"schema\":\"ores.otel.log/internal-diagnostic/v1\",\"timestamp\":\""@
            + timestamp_text(now) + "\",\"service\":\""@ + shown_service(service)
            + "\",\"severity\":\""@ + (match severity {
            Severity::Warn => "warn"@,
            Severity::Error => "error"@,
            Severity::Fatal => "fatal"@,
        }) + "\",\"component\":\"sidecar\",\"operation\":\""@ + (match operation {
            Operation::SidecarConfigure => "sidecar_configure"@,
            Operation::SidecarListen => "sidecar_listen"@,
            Operation::SidecarProbe => "sidecar_probe"@,
        }) + "\",\"outcome\":\""@ + (match outcome {
            Outcome::Failed => "failed"@,
            Outcome::Rejected => "rejected"@,
        }) + "\",\"retryable\":"@ + (if retryable {
            "true"@
        } else {
            "false"@
        })
            + ",\"attempt\":0,\"dropped\":0,\"suppressed\":0,\"suppressionSaturated\":false}\n"@,
{
    reveal_strlit("{\"schema\":\"");
    reveal_strlit("ores.otel.log/internal-diagnostic/v1");
    reveal_strlit("\",\"timestamp\":\"");
    reveal_strlit("{\"schema\":\"ores.otel.log/internal-diagnostic/v1\",\"timestamp\":\"");
    assert("{\"schema\":\""@ + SCHEMA@ + "\",\"timestamp\":\""@
        =~= "{\"schema\":\"ores.otel.log/internal-diagnostic/v1\",\"timestamp\":\""@);
}

} // verus!
