use vstd::prelude::*;

verus! {

/// What `url::Url::parse` gives for a string: the URL's serialization, or the
/// text of the parse error.
pub uninterp spec fn url_parsed(s: Seq<char>) -> Result<Seq<char>, Seq<char>>;

/// What `uuid::Uuid::parse_str` gives for a string: the UUID's 128-bit value,
/// or the text of the parse error.
pub uninterp spec fn uuid_parsed(s: Seq<char>) -> Result<u128, Seq<char>>;

/// What `chrono::NaiveDate::parse_from_str` with `%Y-%m-%d` gives for a
/// string: the date's day number from the common era, or the error text.
pub uninterp spec fn date_parsed(s: Seq<char>) -> Result<i32, Seq<char>>;

/// What `chrono::DateTime::parse_from_rfc3339` gives for a string: the
/// instant's Unix seconds and nanoseconds, or the error text.
pub uninterp spec fn date_time_parsed(s: Seq<char>) -> Result<(i64, u32), Seq<char>>;

/// What `chrono::NaiveDateTime::parse_from_str` with `%Y-%m-%d %H:%M:%S` gives
/// for a string: its Unix seconds read as UTC, or the error text.
pub uninterp spec fn naive_date_time_parsed(s: Seq<char>) -> Result<i64, Seq<char>>;

/// Relies on `url::Url::parse`, and on `Url::as_str` for the serialization.
#[verifier::external_body]
pub(crate) fn parse_url(s: &str) -> (r: Result<String, String>)
    ensures
        match r {
            Ok(u) => url_parsed(s@) == Ok::<Seq<char>, Seq<char>>(u@),
            Err(m) => url_parsed(s@) == Err::<Seq<char>, Seq<char>>(m@),
        },
{
    match url::Url::parse(s) {
        Ok(u) => Ok(u.as_str().to_string()),
        Err(e) => Err(e.to_string()),
    }
}

/// Relies on `uuid::Uuid::parse_str`, and on `Uuid::as_u128` for the value.
#[verifier::external_body]
pub(crate) fn parse_uuid(s: &str) -> (r: Result<u128, String>)
    ensures
        match r {
            Ok(u) => uuid_parsed(s@) == Ok::<u128, Seq<char>>(u),
            Err(m) => uuid_parsed(s@) == Err::<u128, Seq<char>>(m@),
        },
{
    match uuid::Uuid::parse_str(s) {
        Ok(u) => Ok(u.as_u128()),
        Err(e) => Err(e.to_string()),
    }
}

/// Relies on `chrono::NaiveDate::parse_from_str` with the format `%Y-%m-%d`,
/// and on `Datelike::num_days_from_ce` for the day number.
#[verifier::external_body]
pub(crate) fn parse_date(s: &str) -> (r: Result<i32, String>)
    ensures
        match r {
            Ok(d) => date_parsed(s@) == Ok::<i32, Seq<char>>(d),
            Err(m) => date_parsed(s@) == Err::<i32, Seq<char>>(m@),
        },
{
    match chrono::NaiveDate::parse_from_str(s, "%Y-%m-%d") {
        Ok(d) => Ok(chrono::Datelike::num_days_from_ce(&d)),
        Err(e) => Err(e.to_string()),
    }
}

/// Relies on `chrono::DateTime::parse_from_rfc3339`, and on `timestamp` and
/// `timestamp_subsec_nanos` of the instant.
#[verifier::external_body]
pub(crate) fn parse_date_time(s: &str) -> (r: Result<(i64, u32), String>)
    ensures
        match r {
            Ok(t) => date_time_parsed(s@) == Ok::<(i64, u32), Seq<char>>(t),
            Err(m) => date_time_parsed(s@) == Err::<(i64, u32), Seq<char>>(m@),
        },
{
    match chrono::DateTime::parse_from_rfc3339(s) {
        Ok(t) => Ok((t.timestamp(), t.timestamp_subsec_nanos())),
        Err(e) => Err(e.to_string()),
    }
}

/// Relies on `chrono::NaiveDateTime::parse_from_str` with the format
/// `%Y-%m-%d %H:%M:%S`, and on `and_utc().timestamp()` for the seconds.
#[verifier::external_body]
pub(crate) fn parse_naive_date_time(s: &str) -> (r: Result<i64, String>)
    ensures
        match r {
            Ok(t) => naive_date_time_parsed(s@) == Ok::<i64, Seq<char>>(t),
            Err(m) => naive_date_time_parsed(s@) == Err::<i64, Seq<char>>(m@),
        },
{
    match chrono::NaiveDateTime::parse_from_str(s, "%Y-%m-%d %H:%M:%S") {
        Ok(t) => Ok(t.and_utc().timestamp()),
        Err(e) => Err(e.to_string()),
    }
}

} // verus!
