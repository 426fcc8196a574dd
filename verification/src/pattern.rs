use vstd::prelude::*;

verus! {

/// Whether the regular expression `pattern` matches somewhere in `text`, as
/// the regex crate decides it; none where the crate refuses the pattern.
pub uninterp spec fn regex_verdict(pattern: Seq<char>, text: Seq<char>) -> Option<bool>;

/// `regex::Regex::new` compiles the pattern or refuses it, and
/// `Regex::is_match` tells whether the compiled pattern matches anywhere in
/// the text. Both depend on the two texts alone.
#[verifier::external_body]
pub(crate) fn regex_match(pattern: &str, text: &str) -> (r: Option<bool>)
    ensures
        r == regex_verdict(pattern@, text@),
{
    match regex::Regex::new(pattern) {
        Ok(compiled) => Some(compiled.is_match(text)),
        Err(_) => None,
    }
}

/// The date that `text` spells in the strftime-like `format`, as chrono
/// reads it, in days from the first of January of the year 1; none where
/// chrono cannot read it.
pub uninterp spec fn date_days(text: Seq<char>, format: Seq<char>) -> Option<i32>;

/// `chrono::NaiveDate::parse_from_str` reads a date from the text by the
/// format or fails, and `Datelike::num_days_from_ce` counts the days of the
/// date. Both depend on the two texts alone.
#[verifier::external_body]
pub(crate) fn parse_date(text: &str, format: &str) -> (r: Option<i32>)
    ensures
        r == date_days(text@, format@),
{
    match chrono::NaiveDate::parse_from_str(text, format) {
        Ok(date) => Some(chrono::Datelike::num_days_from_ce(&date)),
        Err(_) => None,
    }
}

} // verus!
