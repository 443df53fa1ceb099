//! The regular expressions of the scraper, matched with the `regex` crate.

use vstd::prelude::*;
use regex::Regex;

verus! {

/// Part numbers: `C` or `c`, digits, then any number of `_b` basic-part markers.
pub const PART_NUMBER_PATTERN: &'static str = r"^[cC]\d+(_b)*$";

/// A voltage: a signed decimal number followed by `V`, `Vin` or `mV`.
pub const VOLTAGE_PATTERN: &'static str = r"^(-{0,1}\d+(\.\d+)*)(V|Vin|mV)";

/// A price: an optional `US$`, then a decimal number.
pub const PRICE_PATTERN: &'static str = r"^(?:US\$){0,1}(\d+(\.\d+){0,1})$";

/// A resistance: a decimal number followed by SI suffix letters.
pub const RESISTANCE_PATTERN: &'static str = r"^(\d+(\.\d+){0,1})[KMmun]*$";

/// Whether the expression `pattern` compiles (`Some`) and, if it does,
/// whether it matches somewhere in `text`.
pub uninterp spec fn regex_matches(pattern: Seq<char>, text: Seq<char>) -> Option<bool>;

/// The text of capture group `index` of the first match of the expression
/// `pattern` in `text`; `None` where the expression does not compile, does
/// not match, has no such group, or the group takes no part in the match.
pub uninterp spec fn regex_group(pattern: Seq<char>, text: Seq<char>, index: usize) -> Option<
    Seq<char>,
>;

/// `regex::Regex::new` followed by `Regex::is_match`. The result is named
/// (`regex_matches`), not described: which texts an expression matches is
/// left to the `regex` crate.
#[verifier::external_body]
pub(crate) fn regex_is_match(pattern: &str, text: &str) -> (r: Option<bool>)
    ensures
        r == regex_matches(pattern@, text@),
{
    match Regex::new(pattern) {
        Ok(re) => Some(re.is_match(text)),
        Err(_) => None,
    }
}

/// `regex::Regex::new` followed by `Regex::captures` and `Captures::get`.
/// The result is named (`regex_group`), not described.
#[verifier::external_body]
pub(crate) fn regex_capture(pattern: &str, text: &str, index: usize) -> (r: Option<String>)
    ensures
        r.deep_view() == regex_group(pattern@, text@, index),
{
    let re = Regex::new(pattern).ok()?;
    let caps = re.captures(text)?;
    match caps.get(index) {
        Some(m) => Some(m.as_str().to_string()),
        None => None,
    }
}

} // verus!
