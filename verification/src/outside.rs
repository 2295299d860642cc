//! The outside types that the library carries (from std, serde_json and
//! fancy_regex), and the calls into serde_json and fancy_regex whose
//! contracts are believed, not proved.

use vstd::prelude::*;

use crate::data::JsonErrorCategory;

verus! {

/// `serde_json::Error`, carried opaque.
#[verifier::external_type_specification]
#[verifier::external_body]
pub struct ExJsonError(serde_json::Error);

/// `std::io::Error`, carried opaque.
#[verifier::external_type_specification]
#[verifier::external_body]
pub struct ExIoError(std::io::Error);

/// `std::path::PathBuf`, carried opaque.
#[verifier::external_type_specification]
#[verifier::external_body]
pub struct ExPathBuf(std::path::PathBuf);

/// `fancy_regex::Regex`, carried opaque.
#[verifier::external_type_specification]
#[verifier::external_body]
pub struct ExRegex(fancy_regex::Regex);

/// `fancy_regex::Error`, carried opaque.
#[verifier::external_type_specification]
#[verifier::external_body]
pub struct ExRegexError(fancy_regex::Error);

/// The category that `serde_json::Error::classify` gives for `e`.
pub uninterp spec fn json_category_of(e: serde_json::Error) -> JsonErrorCategory;

/// The text that the `Display` impl of `serde_json::Error` writes for `e`.
pub uninterp spec fn json_message_of(e: serde_json::Error) -> Seq<char>;

/// Calls `serde_json::Error::classify` and hands back its category. Claimed:
/// the category is a function of the error alone (the method reads a field
/// of it and nothing else).
#[verifier::external_body]
pub(crate) fn json_error_category(e: &serde_json::Error) -> (r: JsonErrorCategory)
    ensures
        r == json_category_of(*e),
{
    match e.classify() {
        serde_json::error::Category::Io => JsonErrorCategory::Io,
        serde_json::error::Category::Syntax => JsonErrorCategory::Syntax,
        serde_json::error::Category::Data => JsonErrorCategory::Data,
        serde_json::error::Category::Eof => JsonErrorCategory::Eof,
    }
}

/// Calls `to_string` on a `serde_json::Error` (its `Display` impl). Claimed:
/// for an error that is not of the I/O category the text is a function of
/// the error alone (serde_json's own fixed messages, serde's messages and
/// the line and column). An I/O-category error is left out: its text is the
/// wrapped `io::Error`'s, which may change from call to call or fail.
#[verifier::external_body]
pub(crate) fn json_error_text(e: &serde_json::Error) -> (r: String)
    requires
        json_category_of(*e) != JsonErrorCategory::Io,
    ensures
        r@ == json_message_of(*e),
{
    e.to_string()
}

/// Whether fancy_regex builds a case-insensitive regex from `pattern`.
pub uninterp spec fn builds_case_insensitive(pattern: Seq<char>) -> bool;

/// What `is_match` of the case-insensitive regex built from `pattern` gives
/// on `text`: `Some` of the answer, or `None` where the search fails (it
/// gives up past its backtracking limit).
pub uninterp spec fn case_insensitive_search(pattern: Seq<char>, text: Seq<char>) -> Option<bool>;

/// A regex that fancy_regex compiled case-insensitively, with the pattern it
/// was compiled from. Only `build_case_insensitive` makes one, so the two
/// fields always belong together.
pub struct CaseInsensitiveRegex {
    regex: fancy_regex::Regex,
    pattern: String,
}

impl View for CaseInsensitiveRegex {
    type V = Seq<char>;

    closed spec fn view(&self) -> Seq<char> {
        self.pattern@
    }
}

impl CaseInsensitiveRegex {
    /// The pattern that the regex was compiled from.
    pub fn pattern(&self) -> (r: &String)
        ensures
            r@ == self@,
    {
        &self.pattern
    }
}

/// Calls `fancy_regex::RegexBuilder::new(pattern)`, turns on
/// `case_insensitive(true)` and calls `build()`. Claimed: whether a regex
/// comes back is a function of the pattern alone, and the regex is the one
/// for that pattern.
#[verifier::external_body]
pub(crate) fn build_case_insensitive(pattern: &str) -> (r: Result<
    CaseInsensitiveRegex,
    fancy_regex::Error,
>)
    ensures
        r is Ok == builds_case_insensitive(pattern@),
        r matches Ok(re) ==> re@ == pattern@,
{
    let mut builder = fancy_regex::RegexBuilder::new(pattern);
    builder.case_insensitive(true);
    match builder.build() {
        Ok(regex) => Ok(CaseInsensitiveRegex { regex, pattern: pattern.to_string() }),
        Err(e) => Err(e),
    }
}

/// Calls `fancy_regex::Regex::is_match` on `text`. Claimed: the outcome is
/// a function of the pattern that the regex was built from and of the text.
#[verifier::external_body]
pub(crate) fn search(re: &CaseInsensitiveRegex, text: &str) -> (r: Result<bool, fancy_regex::Error>)
    ensures
        match r {
            Ok(found) => case_insensitive_search(re@, text@) == Some(found),
            Err(_) => case_insensitive_search(re@, text@) is None,
        },
{
    re.regex.is_match(text)
}

} // verus!
