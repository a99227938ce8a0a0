//! The outside crates, as the library sees them.
//!
//! Nothing in this file is proved. Each item states what the library takes
//! on trust from a function of another crate, or of the standard library;
//! everything else in the library is verified against these statements.

use vstd::prelude::*;
use crate::date::CalendarDate;
use crate::hash::hex_lower;
use crate::tree::{Opened, OpenedView};

verus! {

/// `toml::Value`, a value of a document. Nothing is known of what is
/// inside one; the library converts it to a tree or carries it through.
#[verifier::external_type_specification]
#[verifier::external_body]
pub struct ExTomlValue(toml::Value);

/// `toml::de::Error`, the error of reading a document.
#[verifier::external_type_specification]
#[verifier::external_body]
pub struct ExTomlDeError(toml::de::Error);

/// `toml::ser::Error`, the error of writing a document.
#[verifier::external_type_specification]
#[verifier::external_body]
pub struct ExTomlSerError(toml::ser::Error);

/// `url::ParseError`, the error of reading a URL.
#[verifier::external_type_specification]
#[verifier::external_body]
pub struct ExUrlParseError(url::ParseError);

/// `chrono::ParseError`, the error of reading a date.
#[verifier::external_type_specification]
#[verifier::external_body]
pub struct ExChronoParseError(chrono::ParseError);

/// `String::push` of the standard library: appends one character.
pub assume_specification[ String::push ](s: &mut String, c: char)
    ensures
        final(s)@ == old(s)@.push(c),
;

/// `Clone::clone` of `toml::Value`: the copy is the same value.
pub assume_specification[ <toml::Value as Clone>::clone ](v: &toml::Value) -> (r: toml::Value)
    ensures
        r == *v,
;

/// The SHA-256 digest of `data`, as `ring` computes it.
pub uninterp spec fn sha256(data: Seq<u8>) -> Seq<u8>;

/// The document that the `toml` crate reads from `text`; `None` where it
/// reports a syntax error.
pub uninterp spec fn toml_document(text: Seq<char>) -> Option<toml::Value>;

/// The text that the `toml` crate writes for `doc`; `None` where it reports
/// that `doc` cannot be written.
pub uninterp spec fn toml_text(doc: toml::Value) -> Option<Seq<char>>;

/// What the outside value `v` holds, one level deep.
pub uninterp spec fn opened(v: toml::Value) -> OpenedView;

/// The outside value that holds `o`.
pub uninterp spec fn closed(o: OpenedView) -> toml::Value;

/// The path component that the `url` crate finds in `text`; `None` where it
/// does not accept `text` as an absolute URL.
pub uninterp spec fn url_path(text: Seq<char>) -> Option<Seq<char>>;

/// The year, month and day that `chrono` reads from `text` under `format`;
/// `None` where it reports an error.
pub uninterp spec fn date_in_text(text: Seq<char>, format: Seq<char>) -> Option<(int, int, int)>;

/// The year, month and day that `chrono` finds `days` days before `date`;
/// `None` where `date` is no day of the calendar, or the span or the result
/// is out of its range.
pub uninterp spec fn date_moved_back(date: (int, int, int), days: int) -> Option<(int, int, int)>;

/// `ring::digest::digest` with `ring::digest::SHA256`: the digest is a
/// function of the data and is 32 bytes long. The call panics on data of
/// 2^61 bytes or more, which the precondition leaves out.
#[verifier::external_body]
pub(crate) fn sha256_digest(data: &[u8]) -> (r: Vec<u8>)
    requires
        data@.len() < 0x2000_0000_0000_0000,
    ensures
        r@ == sha256(data@),
        r@.len() == 32,
{
    Vec::from(ring::digest::digest(&ring::digest::SHA256, data).as_ref())
}

/// `hex::encode`: two lower-case hexadecimal digits for each byte, the high
/// half first.
#[verifier::external_body]
pub(crate) fn hex_encode(data: &[u8]) -> (r: String)
    ensures
        r@ == hex_lower(data@),
{
    hex::encode(data)
}

/// `str::parse::<toml::Value>`: reads a whole document. The result is a
/// function of the text.
#[verifier::external_body]
pub(crate) fn parse_document(text: &str) -> (r: Result<toml::Value, toml::de::Error>)
    ensures
        r matches Ok(v) ==> toml_document(text@) == Some(v),
        r is Err ==> toml_document(text@) is None,
{
    text.parse::<toml::Value>()
}

/// `toml::to_string`: writes a document. The result is a function of the
/// document.
#[verifier::external_body]
pub(crate) fn render_document(doc: &toml::Value) -> (r: Result<String, toml::ser::Error>)
    ensures
        r matches Ok(s) ==> toml_text(*doc) == Some(s@),
        r is Err ==> toml_text(*doc) is None,
{
    toml::to_string(doc)
}

/// Tells the variants of a `toml::Value` apart. A string, a boolean and a
/// table hand over what they hold, a table as the list of its entries in
/// the order in which its map yields them; a value of any other variant is
/// handed back as it is. The result is a function of the value.
#[verifier::external_body]
pub(crate) fn open(v: toml::Value) -> (o: Opened)
    ensures
        o@ == opened(v),
{
    match v {
        toml::Value::String(s) => Opened::Text(s),
        toml::Value::Boolean(b) => Opened::Flag(b),
        toml::Value::Table(t) => Opened::Table(t.into_iter().collect()),
        other => Opened::Other(other),
    }
}

/// Makes a `toml::Value` of what it is to hold: a string, a boolean, a table
/// of the given entries, or the value that was handed back. The result is a
/// function of what is given.
#[verifier::external_body]
pub(crate) fn close(o: Opened) -> (v: toml::Value)
    ensures
        v == closed(o@),
{
    match o {
        Opened::Text(s) => toml::Value::String(s),
        Opened::Flag(b) => toml::Value::Boolean(b),
        Opened::Table(entries) => toml::Value::Table(entries.into_iter().collect()),
        Opened::Other(v) => v,
    }
}

/// `url::Url::parse`, then `Url::path` of the result.
#[verifier::external_body]
pub(crate) fn parse_url_path(text: &str) -> (r: Result<String, url::ParseError>)
    ensures
        r matches Ok(p) ==> url_path(text@) == Some(p@),
        r is Err ==> url_path(text@) is None,
{
    url::Url::parse(text).map(|u| u.path().to_string())
}

/// `chrono::NaiveDate::parse_from_str`, the result given as year, month and
/// day. `chrono` documents the month as 1 to 12 and the day as 1 to 31.
#[verifier::external_body]
pub(crate) fn parse_date(text: &str, format: &str) -> (r: Result<CalendarDate, chrono::ParseError>)
    ensures
        r matches Ok(d) ==> date_in_text(text@, format@) == Some(d.ymd()) && d.wf(),
        r is Err ==> date_in_text(text@, format@) is None,
{
    chrono::NaiveDate::parse_from_str(text, format).map(
        |d| CalendarDate {
            year: chrono::Datelike::year(&d),
            month: chrono::Datelike::month(&d),
            day: chrono::Datelike::day(&d),
        },
    )
}

/// `chrono::NaiveDate::checked_sub_signed` with a span of `days` days
/// (`chrono::TimeDelta::try_days`), from and to year, month and day.
#[verifier::external_body]
pub(crate) fn move_back(date: &CalendarDate, days: i64) -> (r: Option<CalendarDate>)
    ensures
        r matches Some(d) ==> date_moved_back(date.ymd(), days as int) == Some(d.ymd()) && d.wf(),
        r is None ==> date_moved_back(date.ymd(), days as int) is None,
{
    let start = chrono::NaiveDate::from_ymd_opt(date.year, date.month, date.day)?;
    let d = start.checked_sub_signed(chrono::TimeDelta::try_days(days)?)?;
    Some(CalendarDate {
        year: chrono::Datelike::year(&d),
        month: chrono::Datelike::month(&d),
        day: chrono::Datelike::day(&d),
    })
}

} // verus!
