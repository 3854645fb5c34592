//! Civil dates and UTC instants as plain integers.
//!
//! A date is the number of days since the first of January of year one of the proleptic Gregorian
//! calendar, that day being day `1` (chrono's `num_days_from_ce`); an instant is the number of
//! nanoseconds since the Unix epoch. Calendar conversions go through chrono.

use vstd::prelude::*;
use chrono::Datelike;
use chrono::TimeZone;

verus! {

/// Nanoseconds in a day.
pub const NANOS_POR_DIA: i64 = 86_400_000_000_000;

/// The day number of 1970-01-01, the day of the Unix epoch.
pub const DIA_EPOCA: i32 = 719_163;

/// The weekday of a day number, Monday being `0` and Sunday `6`: day `1` was a Monday.
pub open spec fn dia_semana(f: int) -> int {
    (f + 6) % 7
}

pub open spec fn es_sabado(f: int) -> bool {
    dia_semana(f) == 5
}

pub open spec fn es_domingo(f: int) -> bool {
    dia_semana(f) == 6
}

/// The day number of 9999-12-31, the last day of the four-digit years.
pub const ULTIMO_DIA_9999: i32 = 3_652_059;

/// The instant 1901-01-01T00:00:00Z, in nanoseconds since the epoch.
pub const INSTANTE_1901: i64 = -2_177_452_800_000_000_000;

/// A civil date that exists in every month of every year of `desde..=hasta`: the day is at most
/// the 28th.
pub open spec fn fecha_segura(y: i32, m: u32, d: u32, desde: i32, hasta: i32) -> bool {
    desde <= y <= hasta && 1 <= m <= 12 && 1 <= d <= 28
}

/// The UTC date an instant falls on.
pub open spec fn dia_de(instante: int) -> int {
    instante / (NANOS_POR_DIA as int) + DIA_EPOCA as int
}

pub fn sabado(f: i32) -> (b: bool)
    ensures
        b == es_sabado(f as int),
{
    let d: i64 = (f as i64 + 6) % 7;
    let d = if d < 0 {
        d + 7
    } else {
        d
    };
    assert(d == dia_semana(f as int)) by (nonlinear_arith)
        requires
            d == (if (f as int + 6) % 7 < 0 { (f as int + 6) % 7 + 7 } else { (f as int + 6) % 7 }),
    ;
    d == 5
}

pub fn domingo(f: i32) -> (b: bool)
    ensures
        b == es_domingo(f as int),
{
    let d: i64 = (f as i64 + 6) % 7;
    let d = if d < 0 {
        d + 7
    } else {
        d
    };
    assert(d == dia_semana(f as int)) by (nonlinear_arith)
        requires
            d == (if (f as int + 6) % 7 < 0 { (f as int + 6) % 7 + 7 } else { (f as int + 6) % 7 }),
    ;
    d == 6
}

/// The UTC date of an instant.
pub fn fecha_de(instante: i64) -> (f: i32)
    ensures
        f == dia_de(instante as int),
{
    let x: i128 = instante as i128;
    let n: i128 = NANOS_POR_DIA as i128;
    let q: i128 = if x >= 0 {
        x / n
    } else {
        let y: i128 = -x + n - 1;
        let t: i128 = y / n;
        assert(-t == x / n) by (nonlinear_arith)
            requires
                x < 0,
                n > 0,
                y == -x + n - 1,
                t == y / n,
        ;
        -t
    };
    assert(-200_000 <= q <= 200_000) by (nonlinear_arith)
        requires
            q == instante as int / 86_400_000_000_000int,
            i64::MIN <= instante <= i64::MAX,
    ;
    (q + DIA_EPOCA as i128) as i32
}

/// The day number chrono gives the civil date `y-m-d`, if it exists.
pub uninterp spec fn fecha_civil(y: i32, m: u32, d: u32) -> Option<i32>;

/// `NaiveDate::from_ymd_opt` followed by `num_days_from_ce`: the day number of a civil date, or
/// nothing when the date does not exist. A date of the years 1 to 9999 whose day is at most the
/// 28th always exists (chrono's range spans about 262 000 years either side of year 0).
#[verifier::external_body]
pub(crate) fn fecha(y: i32, m: u32, d: u32) -> (r: Option<i32>)
    ensures
        r == fecha_civil(y, m, d),
        fecha_segura(y, m, d, 1, 9999) ==> r is Some,
{
    match chrono::NaiveDate::from_ymd_opt(y, m, d) {
        Some(f) => Some(f.num_days_from_ce()),
        None => None,
    }
}

/// The instant chrono gives `y-m-d h:mi:s` UTC, if it exists.
pub uninterp spec fn instante_civil(y: i32, m: u32, d: u32, h: u32, mi: u32, s: u32) -> Option<i64>;

/// `Utc.with_ymd_and_hms` followed by `timestamp_nanos_opt`. A valid time of a day that exists,
/// in the years 1678 to 2261, is always written: UTC has no ambiguous or missing local times, and
/// those years lie within the nanoseconds an `i64` holds (1677-09-21 to 2262-04-11).
#[verifier::external_body]
pub(crate) fn instante(y: i32, m: u32, d: u32, h: u32, mi: u32, s: u32) -> (r: Option<i64>)
    ensures
        r == instante_civil(y, m, d, h, mi, s),
        fecha_segura(y, m, d, 1678, 2261) && h < 24 && mi < 60 && s < 60 ==> r is Some,
{
    match chrono::Utc.with_ymd_and_hms(y, m, d, h, mi, s).single() {
        Some(t) => t.timestamp_nanos_opt(),
        None => None,
    }
}

/// The instant chrono gives for `instante` moved back `meses` calendar months.
pub uninterp spec fn instante_menos_meses(instante: i64, meses: u32) -> Option<i64>;

/// `DateTime::<Utc>::checked_sub_months`: the same day and time `meses` months earlier, on the
/// last day of the month when that day does not exist; nothing when out of range. Going back
/// never moves forward, and no month is longer than 31 days. Going back at most a year from
/// 1901 or later stays within chrono's range and within the nanoseconds an `i64` holds, and UTC
/// never makes a local time ambiguous, so it succeeds.
#[verifier::external_body]
pub(crate) fn restar_meses(instante: i64, meses: u32) -> (r: Option<i64>)
    ensures
        r == instante_menos_meses(instante, meses),
        r matches Some(t) ==> instante - meses * 31 * NANOS_POR_DIA <= t <= instante,
        meses <= 12 && instante >= INSTANTE_1901 ==> r is Some,
{
    match chrono::DateTime::from_timestamp_nanos(instante).checked_sub_months(chrono::Months::new(meses)) {
        Some(t) => t.timestamp_nanos_opt(),
        None => None,
    }
}

/// The date chrono gives for `f` moved back `dias` days.
pub uninterp spec fn fecha_menos_dias(f: i32, dias: u32) -> Option<i32>;

/// `NaiveDate::checked_sub_days`: when it succeeds the result is exactly `dias` days earlier; it
/// fails when the result leaves chrono's calendar, whose exact bounds are left unsaid here; the
/// years 1 to 9999 lie well inside them.
#[verifier::external_body]
pub(crate) fn restar_dias(f: i32, dias: u32) -> (r: Option<i32>)
    ensures
        r == fecha_menos_dias(f, dias),
        r matches Some(x) ==> x == f - dias,
        1 <= f - dias && f <= ULTIMO_DIA_9999 ==> r is Some,
{
    match chrono::NaiveDate::from_num_days_from_ce_opt(f) {
        Some(d) => match d.checked_sub_days(chrono::Days::new(dias as u64)) {
            Some(r) => Some(r.num_days_from_ce()),
            None => None,
        },
        None => None,
    }
}

/// How chrono writes the date with this day number, `YYYY-MM-DD`, when it has one.
pub uninterp spec fn escritura_de_fecha(f: i32) -> Option<Seq<char>>;

/// `NaiveDate::from_num_days_from_ce_opt` followed by `NaiveDate::to_string`: the date written
/// `YYYY-MM-DD`, nothing when chrono has no date with this day number.
#[verifier::external_body]
pub(crate) fn escribir_fecha(f: i32) -> (r: Option<String>)
    ensures
        r matches Some(s) ==> escritura_de_fecha(f) == Some(s@),
        r is None ==> escritura_de_fecha(f) is None,
{
    match chrono::NaiveDate::from_num_days_from_ce_opt(f) {
        Some(d) => Some(d.to_string()),
        None => None,
    }
}

/// A date as the messages write it: `YYYY-MM-DD`, or nothing at all for a day number no date has.
pub open spec fn texto_de_fecha(f: i32) -> Seq<char> {
    match escritura_de_fecha(f) {
        Some(s) => s,
        None => Seq::empty(),
    }
}

/// A date as the messages write it.
pub fn texto_fecha(f: i32) -> (r: String)
    ensures
        r@ == texto_de_fecha(f),
{
    match escribir_fecha(f) {
        Some(s) => s,
        None => String::new(),
    }
}

/// The day number of a date written `YYYY-MM-DD`, as chrono reads it.
pub uninterp spec fn fecha_de_texto(s: Seq<char>) -> Option<i32>;

/// `str::parse::<NaiveDate>` followed by `num_days_from_ce`: nothing when the text is not a date.
#[verifier::external_body]
pub(crate) fn leer_fecha(s: &str) -> (r: Option<i32>)
    ensures
        r == fecha_de_texto(s@),
{
    match s.parse::<chrono::NaiveDate>() {
        Ok(d) => Some(d.num_days_from_ce()),
        Err(_) => None,
    }
}

/// How chrono writes an instant in RFC 3339.
pub uninterp spec fn rfc3339_de(instante: i64) -> Seq<char>;

/// `DateTime::<Utc>::to_rfc3339` of the instant with these nanoseconds since the epoch.
#[verifier::external_body]
pub(crate) fn texto_rfc3339(instante: i64) -> (r: String)
    ensures
        r@ == rfc3339_de(instante),
{
    chrono::DateTime::from_timestamp_nanos(instante).to_rfc3339()
}

/// The instant chrono reads from a stored timestamp.
pub uninterp spec fn instante_de_texto(s: Seq<char>) -> Option<i64>;

/// `DateTime::parse_from_rfc3339` followed by `timestamp_nanos_opt`: the instant a stored
/// timestamp such as `2026-08-10T09:00:00.000Z` names, whatever its offset; nothing when the text
/// is not an RFC 3339 timestamp or the instant lies beyond the nanoseconds an `i64` holds.
#[verifier::external_body]
pub(crate) fn leer_instante(s: &str) -> (r: Option<i64>)
    ensures
        r == instante_de_texto(s@),
{
    match chrono::DateTime::parse_from_rfc3339(s) {
        Ok(t) => t.timestamp_nanos_opt(),
        Err(_) => None,
    }
}

/// How chrono writes an instant for storage.
pub uninterp spec fn guardado_de(instante: i64) -> Seq<char>;

/// `DateTime::<Utc>::to_rfc3339_opts` with milliseconds and a `Z`, as in
/// `2026-08-10T09:00:00.000Z`, for the instant with these nanoseconds since the epoch.
#[verifier::external_body]
pub(crate) fn texto_guardado(instante: i64) -> (r: String)
    ensures
        r@ == guardado_de(instante),
{
    chrono::DateTime::from_timestamp_nanos(instante).to_rfc3339_opts(chrono::SecondsFormat::Millis, true)
}

} // verus!
