//! Capture dates: embedded metadata first, then the file's creation time,
//! then the time of resolution.
//!
//! A date is a naive timestamp in milliseconds since 1970-01-01 00:00:00.
use vstd::prelude::*;

verus! {

/// How the embedded capture time reads once the EXIF reader has rendered it.
pub const EXIF_DATETIME_FORMAT: &'static str = "%Y-%m-%d %H:%M:%S";

/// The `DateTime` field of the primary image's EXIF data in `b`, as the EXIF
/// reader renders it, or `None` where `b` holds no such field.
pub uninterp spec fn exif_datetime_text(b: Seq<u8>) -> Option<Seq<char>>;

/// The naive timestamp, in milliseconds, that `s` gives when parsed with the
/// format `fmt`, or `None` where it does not parse.
pub uninterp spec fn parsed_datetime_millis(s: Seq<char>, fmt: Seq<char>) -> Option<i64>;

/// Relies on `exif::Reader::read_from_container` and `exif::Exif::get_field`
/// (with `Field::display_value`): the rendered `DateTime` field of the
/// primary image, which depends on the bytes alone. Malformed data comes back
/// as an error of the reader, which `ok()` turns into `None`.
#[verifier::external_body]
fn read_exif_datetime(b: &[u8]) -> (r: Option<String>)
    ensures
        match r {
            Some(t) => exif_datetime_text(b@) == Some(t@),
            None => exif_datetime_text(b@).is_none(),
        },
{
    let exif = exif::Reader::new().read_from_container(&mut std::io::Cursor::new(b)).ok()?;
    let field = exif.get_field(exif::Tag::DateTime, exif::In::PRIMARY)?;
    Some(field.display_value().to_string())
}

/// Relies on `chrono::NaiveDateTime::parse_from_str`: the parsed timestamp,
/// in milliseconds, depends on the text and the format alone.
#[verifier::external_body]
fn parse_datetime(s: &str, fmt: &str) -> (r: Option<i64>)
    ensures
        r == parsed_datetime_millis(s@, fmt@),
{
    chrono::NaiveDateTime::parse_from_str(s, fmt).ok().map(|d| d.and_utc().timestamp_millis())
}

/// Relies on `chrono::Utc::now`: the current time in milliseconds. Nothing is
/// known of its value.
#[verifier::external_body]
pub(crate) fn now_millis() -> (r: i64) {
    chrono::Utc::now().timestamp_millis()
}

/// The capture date that a file's embedded metadata gives, if any.
pub open spec fn exif_date_of(b: Seq<u8>) -> Option<i64> {
    match exif_datetime_text(b) {
        Some(t) => parsed_datetime_millis(t, EXIF_DATETIME_FORMAT@),
        None => None,
    }
}

/// The fallback chain: the first source that gave a date wins.
pub open spec fn capture_date_of(exif: Option<i64>, created: Option<i64>, now: i64) -> i64 {
    match exif {
        Some(d) => d,
        None => match created {
            Some(c) => c,
            None => now,
        },
    }
}

/// The capture date held in a file's embedded metadata: the `DateTime` field
/// of the primary image, parsed with second precision.
pub fn get_exif_date(content: &Vec<u8>) -> (r: Option<i64>)
    ensures
        r == exif_date_of(content@),
{
    match read_exif_datetime(content.as_slice()) {
        Some(text) => parse_datetime(text.as_str(), EXIF_DATETIME_FORMAT),
        None => None,
    }
}

/// Picks the capture date from the three sources in priority order:
/// embedded metadata, then the filesystem creation time, then `now`.
pub fn resolve_capture_date(exif: Option<i64>, created: Option<i64>, now: i64) -> (r: i64)
    ensures
        r == capture_date_of(exif, created, now),
        exif.is_some() ==> r == exif.unwrap(),
        exif.is_none() && created.is_some() ==> r == created.unwrap(),
        exif.is_none() && created.is_none() ==> r == now,
{
    match exif {
        Some(d) => d,
        None => match created {
            Some(c) => c,
            None => now,
        },
    }
}

/// Resolves the capture date of a file from its bytes and its filesystem
/// creation time (`None` where that could not be read), with `now` as the
/// time of resolution: the embedded date, else the creation time, else `now`.
pub fn resolve_date_at(content: &Vec<u8>, created: Option<i64>, now: i64) -> (r: i64)
    ensures
        r == capture_date_of(exif_date_of(content@), created, now),
        exif_date_of(content@).is_none() && created.is_none() ==> r == now,
{
    let exif = get_exif_date(content);
    resolve_capture_date(exif, created, now)
}

/// Resolves the capture date of a file from its bytes and its filesystem
/// creation time (`None` where that could not be read). It always succeeds:
/// where neither source gives a date, the current time is taken.
pub fn resolve_date(content: &Vec<u8>, created: Option<i64>) -> (r: i64)
    ensures
        exif_date_of(content@).is_some() ==> r == exif_date_of(content@).unwrap(),
        exif_date_of(content@).is_none() && created.is_some() ==> r == created.unwrap(),
{
    let now = now_millis();
    resolve_date_at(content, created, now)
}

} // verus!
