//! The built-in `email` check.
//!
//! A cell passes when it is empty (empty means "not provided", not
//! "invalid"), or when a fixed pattern approximating RFC 5322 mailbox syntax
//! (local part in quoted or unquoted form; domain as dotted labels or a
//! bracketed IPv4/literal address) matches somewhere in it. The pattern is
//! compiled once, when the check is built, and reused for every cell.

use vstd::prelude::*;

use crate::checks::{Check, Matcher};

verus! {

/// What finding the fixed email pattern in a string returns: a function of
/// the string's characters alone.
pub uninterp spec fn email_pattern_matches(s: Seq<char>) -> bool;

#[verifier::external_type_specification]
#[verifier::external_body]
pub struct ExRegex(regex::Regex);

/// The fixed email pattern, compiled once and reusable for any number of
/// cells. Every value of this type holds the same pattern: the one its only
/// constructor compiles.
pub struct EmailRegex {
    re: regex::Regex,
}

impl EmailRegex {
    /// Relies on `regex::Regex::new`: the fixed pattern below is a valid
    /// regular expression, so compiling it succeeds.
    #[verifier::external_body]
    pub fn new() -> (r: EmailRegex) {
        EmailRegex {
            re: regex::Regex::new(r#"(?:[a-z0-9!#$%&'*+/=?^_`{|}~-]+(?:\.[a-z0-9!#$%&'*+/=?^_`{|}~-]+)*|"(?:[\x01-\x08\x0b\x0c\x0e-\x1f\x21\x23-\x5b\x5d-\x7f]|\\[\x01-\x09\x0b\x0c\x0e-\x7f])*")@(?:(?:[a-z0-9](?:[a-z0-9-]*[a-z0-9])?\.)+[a-z0-9](?:[a-z0-9-]*[a-z0-9])?|\[(?:(?:25[0-5]|2[0-4][0-9]|[01]?[0-9][0-9]?)\.){3}(?:25[0-5]|2[0-4][0-9]|[01]?[0-9][0-9]?|[a-z0-9-]*[a-z0-9]:(?:[\x01-\x08\x0b\x0c\x0e-\x1f\x21-\x5a\x53-\x7f]|\\[\x01-\x09\x0b\x0c\x0e-\x7f])+)\])"#).unwrap(),
        }
    }

    /// Relies on `regex::Regex::is_match`: whether the fixed email pattern
    /// (the one every `EmailRegex` carries) matches somewhere in `s` depends
    /// on the characters of `s` alone.
    #[verifier::external_body]
    pub fn is_match(&self, s: &str) -> (r: bool)
        ensures
            r == email_pattern_matches(s@),
    {
        self.re.is_match(s)
    }
}

/// Builds the registry's email check.
pub(crate) fn init() -> (c: Check)
    ensures
        c.wf(),
{
    let mut columns: Vec<String> = Vec::new();
    columns.push("email".to_owned());
    columns.push("email_address".to_owned());
    let c = Check { key: "email".to_owned(), columns, matcher: Matcher::Email(EmailRegex::new()) };
    proof {
        assert(c@.columns =~= crate::checks::spec_registry()[0].columns);
        assert(c@ =~= crate::checks::spec_registry()[0]);
    }
    c
}

} // verus!
