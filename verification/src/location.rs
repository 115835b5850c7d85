//! Names for what is run: the URL of a line of a session, and of a file.
use vstd::prelude::*;
use std::path::PathBuf;
use url::Url;
use crate::text::decimal;
use crate::text::push_decimal;

verus! {

/// The text of the URL under which line `number` of a session is reported.
pub open spec fn location_of(number: u64) -> Seq<char> {
    "eval:///line/"@ + decimal(number as nat)
}

/// `url::Url`, a parsed URL. This library makes such values and hands them
/// on; it never looks into one.
#[verifier::external_type_specification]
#[verifier::external_body]
pub struct ExUrl(Url);

/// What `Url::parse` makes of a text: the URL, or `None` for a text that is
/// no absolute URL.
pub uninterp spec fn parsed_url(text: Seq<char>) -> Option<Url>;

/// Why no URL could be made.
#[derive(Clone, Copy, Debug, PartialEq, Eq, Structural)]
pub enum LocationError {
    /// The text is no absolute URL.
    NotAUrl,
    /// The path is not absolute, or no file URL can name it.
    NotAFilePath,
}

/// Calls `Url::parse`, which reads the text as an absolute URL and gives
/// the same answer for the same text; its error is left out.
#[verifier::external_body]
fn parse_url(text: &str) -> (r: Option<Url>)
    ensures
        r == parsed_url(text@),
{
    match Url::parse(text) {
        Ok(url) => Some(url),
        Err(_) => None,
    }
}

/// Calls `Url::from_file_path`, which makes a `file` URL of an absolute
/// path. What counts as absolute differs from one platform to another, so
/// nothing is said of when it succeeds.
#[verifier::external_body]
fn url_from_path(path: &PathBuf) -> (r: Option<Url>) {
    match Url::from_file_path(path) {
        Ok(url) => Some(url),
        Err(_) => None,
    }
}

/// What a parse came to, as a result of this library.
pub fn parse_outcome(parsed: Option<Url>) -> (r: Result<Url, LocationError>)
    ensures
        r == (match parsed {
            Some(url) => Ok::<Url, LocationError>(url),
            None => Err::<Url, LocationError>(LocationError::NotAUrl),
        }),
{
    match parsed {
        Some(url) => Ok(url),
        None => Err(LocationError::NotAUrl),
    }
}

/// What a conversion of a path came to, as a result of this library.
pub fn path_outcome(converted: Option<Url>) -> (r: Result<Url, LocationError>)
    ensures
        r == (match converted {
            Some(url) => Ok::<Url, LocationError>(url),
            None => Err::<Url, LocationError>(LocationError::NotAFilePath),
        }),
{
    match converted {
        Some(url) => Ok(url),
        None => Err(LocationError::NotAFilePath),
    }
}

/// The URL under which line `number` of a session is reported:
/// `eval:///line/` and the number, parsed.
pub fn line_location(number: u64) -> (r: Result<Url, LocationError>)
    ensures
        r == (match parsed_url(location_of(number)) {
            Some(url) => Ok::<Url, LocationError>(url),
            None => Err::<Url, LocationError>(LocationError::NotAUrl),
        }),
{
    let mut text = String::from_str("eval:///line/");
    push_decimal(&mut text, number as u128);
    parse_outcome(parse_url(text.as_str()))
}

/// The URL of a file, given its absolute path.
pub fn file_location(path: &PathBuf) -> (r: Result<Url, LocationError>)
    ensures
        r is Err ==> r == Err::<Url, LocationError>(LocationError::NotAFilePath),
{
    path_outcome(url_from_path(path))
}

} // verus!
