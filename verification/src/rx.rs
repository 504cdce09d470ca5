//! The pattern engine: compiled regular expressions of the regex crate,
//! behind trusted declarations of what its calls return.

use vstd::prelude::*;

verus! {

#[verifier::external_type_specification]
#[verifier::external_body]
pub struct ExRegex(regex::Regex);

#[verifier::external_type_specification]
#[verifier::external_body]
pub struct ExRegexError(regex::Error);

/// Whether the regex dialect accepts `pat`: compilation succeeds or fails
/// on the pattern text alone.
pub uninterp spec fn pattern_compiles(pat: Seq<char>) -> bool;

/// The pattern text a compiled regex was built from.
pub uninterp spec fn pattern_of(re: regex::Regex) -> Seq<char>;

/// The pieces of `line` between the successive non-overlapping,
/// leftmost-first matches of `pat` on it: `n + 1` pieces for `n` matches,
/// a single piece when nothing matches, and empty pieces between adjacent
/// or zero-width matches.
pub uninterp spec fn regex_split_spec(pat: Seq<char>, line: Seq<char>) -> Seq<Seq<char>>;

/// The capture groups of the successive matches of `pat` on `line`: for
/// each match, in order, the text each explicit group captured, a group
/// that took no part in its match as `None`. The implicit whole-match
/// group is not listed.
pub uninterp spec fn regex_captures_spec(pat: Seq<char>, line: Seq<char>) -> Seq<
    Seq<Option<Seq<char>>>,
>;

/// Relies on `regex::Regex::new`: compiling succeeds or fails on the
/// pattern text alone, and the compiled regex holds that pattern.
#[verifier::external_body]
pub fn regex_new(pat: &str) -> (r: Result<regex::Regex, regex::Error>)
    ensures
        r is Ok <==> pattern_compiles(pat@),
        r matches Ok(re) ==> pattern_of(re) == pat@,
{
    regex::Regex::new(pat)
}

/// Relies on `regex::Regex::split`: the pieces of the haystack around the
/// successive matches, always at least one piece.
#[verifier::external_body]
pub fn regex_split(re: &regex::Regex, line: &str) -> (r: Vec<String>)
    ensures
        r.deep_view() == regex_split_spec(pattern_of(*re), line@),
        r@.len() >= 1,
{
    re.split(line).map(|p| p.to_string()).collect()
}

/// Relies on `regex::Regex::captures_iter`: one entry per match, for the
/// same matches `split` splits around, so exactly one entry fewer than
/// `split` yields pieces; each entry lists what the explicit groups
/// captured, in group order.
#[verifier::external_body]
pub fn regex_captures(re: &regex::Regex, line: &str) -> (r: Vec<Vec<Option<String>>>)
    ensures
        r.deep_view() == regex_captures_spec(pattern_of(*re), line@),
        r.deep_view().len() + 1 == regex_split_spec(pattern_of(*re), line@).len(),
{
    re.captures_iter(line)
        .map(|cs| cs.iter().skip(1).map(|m| m.map(|g| g.as_str().to_string())).collect())
        .collect()
}

} // verus!
