//! Searching text with regular expressions.

use crate::text::{chars_of, numeral_value, parse_decimal};
use vstd::prelude::*;

verus! {

/// The capture groups of the leftmost match of the regular expression
/// `pattern` in `line`, numbered as the expression numbers them: group 0 is
/// the whole match, and a group that took no part in the match is `None`.
/// `None` where `line` has no match, or `pattern` is no regular expression.
pub uninterp spec fn regex_captures(
    pattern: Seq<char>,
    line: Seq<char>,
) -> Option<Seq<Option<Seq<char>>>>;

/// `regex::Error`: why a pattern is no regular expression. Nothing is said
/// of what it holds.
#[verifier::external_type_specification]
#[verifier::external_body]
pub struct ExRegexError(regex::Error);

/// Searches `line` with `regex::Regex::new(pattern)` and `Regex::captures`.
///
/// Trusted: the groups handed back are those of `regex_captures`, each as
/// the text it matched; an expression that does not compile comes back as
/// the crate's error.
#[verifier::external_body]
fn capture_groups(pattern: &str, line: &str) -> (found: Result<
    Option<Vec<Option<String>>>,
    regex::Error,
>)
    ensures
        found matches Ok(groups) ==> groups.deep_view() == regex_captures(pattern@, line@),
        found is Err ==> regex_captures(pattern@, line@) is None,
{
    let re = regex::Regex::new(pattern)?;
    Ok(re.captures(line).map(|caps| caps.iter().map(|m| m.map(|m| m.as_str().to_owned())).collect()))
}

/// The groups of the leftmost match of `pattern` in `line`.
pub fn search(pattern: &str, line: &str) -> (found: Option<Vec<Option<String>>>)
    ensures
        found.deep_view() == regex_captures(pattern@, line@),
{
    match capture_groups(pattern, line) {
        Ok(groups) => groups,
        Err(_) => None,
    }
}

/// The text of group `index`, where the search matched and the group took
/// part in the match.
pub open spec fn group(groups: Option<Seq<Option<Seq<char>>>>, index: int) -> Option<Seq<char>> {
    match groups {
        Some(g) => if 0 <= index < g.len() {
            g[index]
        } else {
            None
        },
        None => None,
    }
}

/// The characters of group `index`, where it took part in the match.
pub fn group_chars(groups: &Option<Vec<Option<String>>>, index: usize) -> (out: Option<Vec<char>>)
    ensures
        out.deep_view() == group(groups.deep_view(), index as int),
{
    match groups {
        Some(g) => {
            if index < g.len() {
                match &g[index] {
                    Some(text) => {
                        let chars = chars_of(text.as_str());
                        proof {
                            assert(chars.deep_view() =~= chars@);
                            assert(g.deep_view()[index as int] == g@[index as int].deep_view());
                        }
                        Some(chars)
                    },
                    None => {
                        proof {
                            assert(g.deep_view()[index as int] == g@[index as int].deep_view());
                        }
                        None
                    },
                }
            } else {
                None
            }
        },
        None => None,
    }
}

/// The number that the numeral of group `index` denotes, and the count of
/// its digits, where it denotes a number of at most `max`.
pub fn group_number(groups: &Option<Vec<Option<String>>>, index: usize, max: u64) -> (out: Option<
    (u64, usize),
>)
    ensures
        match group(groups.deep_view(), index as int) {
            Some(text) => match numeral_value(text, max as nat) {
                Some(v) => out matches Some(found) && found.0 == v && found.1 == text.len(),
                None => out is None,
            },
            None => out is None,
        },
{
    match group_chars(groups, index) {
        Some(chars) => {
            proof {
                assert(chars.deep_view() =~= chars@);
                assert(chars@.subrange(0, chars@.len() as int) =~= chars@);
            }
            match parse_decimal(&chars, 0, chars.len(), max) {
                Some(v) => Some((v, chars.len())),
                None => None,
            }
        },
        None => None,
    }
}

} // verus!
