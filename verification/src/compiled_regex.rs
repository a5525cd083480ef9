//! Regular expressions, compiled and searched by the `regex` crate.
//!
//! A [`CompiledRegex`] remembers the source pattern and the case flag it
//! was built from; the results of the searches are named as functions of
//! those two values and of the haystack.
use vstd::prelude::*;

verus! {

/// The `regex` crate's compiled regular expression, carried as an opaque value.
#[verifier::external_type_specification]
#[verifier::external_body]
pub struct ExRegex(regex::Regex);

/// The `regex` crate's error for a pattern that does not compile, carried opaquely.
#[verifier::external_type_specification]
#[verifier::external_body]
pub struct ExRegexError(regex::Error);

/// Whether `regex::RegexBuilder` accepts `pattern` with the given case flag.
pub uninterp spec fn regex_compiles(pattern: Seq<char>, case_insensitive: bool) -> bool;

/// Whether the regex built from `pattern` (with the given case flag) has a
/// match anywhere in `haystack`.
pub uninterp spec fn regex_is_match(
    pattern: Seq<char>,
    case_insensitive: bool,
    haystack: Seq<char>,
) -> bool;

/// The successive non-overlapping matches that the regex built from
/// `pattern` finds in `haystack`, left to right; for each match, the spans of
/// its capture groups (group 0 is the whole match), as byte offsets into the
/// UTF-8 encoding of `haystack`, `None` for a group that did not take part.
pub uninterp spec fn regex_captures(
    pattern: Seq<char>,
    case_insensitive: bool,
    haystack: Seq<char>,
) -> Seq<Seq<Option<(usize, usize)>>>;

/// A regular expression together with the pattern and case flag it was
/// compiled from. The only way to obtain one is [`CompiledRegex::new`].
#[derive(Debug)]
pub struct CompiledRegex {
    pattern: String,
    case_insensitive: bool,
    regex: regex::Regex,
}

/// `regex::RegexBuilder::new(pattern).case_insensitive(ci).build()`.
/// Claimed: it succeeds exactly when `regex_compiles(pattern, ci)`.
#[verifier::external_body]
fn build_regex(pattern: &str, case_insensitive: bool) -> (r: Result<regex::Regex, regex::Error>)
    ensures
        r is Ok <==> regex_compiles(pattern@, case_insensitive),
{
    regex::RegexBuilder::new(pattern).case_insensitive(case_insensitive).build()
}

/// `regex::Regex::is_match` on the compiled field of `re`.
/// Claimed: the answer is `regex_is_match` of the pattern and flag that
/// `re` was built from (only [`CompiledRegex::new`] builds one).
#[verifier::external_body]
fn regex_search(re: &CompiledRegex, haystack: &str) -> (r: bool)
    ensures
        r == regex_is_match(re.source(), re.is_case_insensitive(), haystack@),
{
    re.regex.is_match(haystack)
}

/// `regex::Regex::captures_iter` on the compiled field of `re`, each
/// `Captures` turned into the list of its group spans.
/// Claimed: the list is `regex_captures` of the pattern and flag that `re`
/// was built from.
#[verifier::external_body]
fn regex_capture_spans(re: &CompiledRegex, haystack: &str) -> (r: Vec<Vec<Option<(usize, usize)>>>)
    ensures
        r.deep_view() == regex_captures(re.source(), re.is_case_insensitive(), haystack@),
{
    re.regex.captures_iter(haystack).map(
        |caps| caps.iter().map(|g| g.map(|m| (m.start(), m.end()))).collect(),
    ).collect()
}

impl CompiledRegex {
    /// The pattern this regex was compiled from.
    pub closed spec fn source(&self) -> Seq<char> {
        self.pattern@
    }

    /// Whether this regex ignores case.
    pub closed spec fn is_case_insensitive(&self) -> bool {
        self.case_insensitive
    }

    /// Compiles `pattern`, ignoring case when `case_insensitive` is set.
    pub fn new(pattern: &str, case_insensitive: bool) -> (r: Result<CompiledRegex, regex::Error>)
        ensures
            r is Ok <==> regex_compiles(pattern@, case_insensitive),
            r matches Ok(re) ==> re.source() == pattern@ && re.is_case_insensitive()
                == case_insensitive,
    {
        match build_regex(pattern, case_insensitive) {
            Ok(regex) => Ok(
                CompiledRegex { pattern: pattern.to_owned(), case_insensitive, regex },
            ),
            Err(e) => Err(e),
        }
    }

    /// Whether the regex matches somewhere in `haystack`.
    pub fn is_match(&self, haystack: &str) -> (r: bool)
        ensures
            r == regex_is_match(self.source(), self.is_case_insensitive(), haystack@),
    {
        regex_search(self, haystack)
    }

    /// The capture spans of every match in `haystack` (see [`regex_captures`]).
    pub fn capture_spans(&self, haystack: &str) -> (r: Vec<Vec<Option<(usize, usize)>>>)
        ensures
            r.deep_view() == regex_captures(self.source(), self.is_case_insensitive(), haystack@),
    {
        regex_capture_spans(self, haystack)
    }
}

} // verus!
