//! Highlight patterns: a pattern's text, its case mode, and its compiled
//! matcher, with compilation and matching delegated to the `regex` crate
//! behind trusted wrappers.

use vstd::prelude::*;

verus! {

/// The declaration of `regex::Regex`, so a compiled matcher can live in a
/// field. The value is opaque; everything known about it goes through the
/// wrappers below.
#[verifier::external_type_specification]
#[verifier::external_body]
pub struct ExRegex(regex::Regex);

/// Whether `pattern`, compiled with the given case mode, is a valid regular
/// expression. Compilation success depends on the pattern text and the case
/// mode alone.
pub uninterp spec fn pattern_compiles(pattern: Seq<char>, case_sensitive: bool) -> bool;

/// The compiler's message for a pattern that fails to compile; like
/// `pattern_compiles`, a function of the pattern text and case mode alone.
pub uninterp spec fn compile_error_of(pattern: Seq<char>, case_sensitive: bool) -> Seq<char>;

/// The byte ranges at which the matcher for `(pattern, case_sensitive)`
/// matches `text`: the successive non-overlapping match ranges, in order,
/// possibly empty ranges included. Bytes that are not valid UTF-8 yield no
/// ranges.
pub uninterp spec fn match_ranges_of(
    pattern: Seq<char>,
    case_sensitive: bool,
    text: Seq<u8>,
) -> Seq<(usize, usize)>;

/// Relies on `regex::RegexBuilder::{new, case_insensitive, build}`: success is
/// a function of the pattern text and the case mode, and the error value is
/// rendered to its display text.
#[verifier::external_body]
fn compile_regex(pattern: &String, case_sensitive: bool) -> (r: Result<regex::Regex, String>)
    ensures
        r is Ok <==> pattern_compiles(pattern@, case_sensitive),
        r matches Err(e) ==> e@ == compile_error_of(pattern@, case_sensitive),
{
    regex::RegexBuilder::new(pattern)
        .case_insensitive(!case_sensitive)
        .build()
        .map_err(|e| e.to_string())
}

/// Relies on `regex::Regex::find_iter` (successive non-overlapping matches in
/// order of position, with byte offsets bounded by the haystack) and on the
/// invariant that `p.regex` is the compilation of `(p.pattern, p.case_sensitive)`,
/// which holds because `regex` is only ever written by `compile_regex`.
/// `core::str::from_utf8` converts the byte argument; invalid UTF-8 yields no
/// matches.
#[verifier::external_body]
pub(crate) fn find_in(p: &Pattern, text: &Vec<u8>) -> (r: Vec<(usize, usize)>)
    ensures
        r@ == match_ranges_of(p.spec_text(), p.spec_case_sensitive(), text@),
        forall|j: int| 0 <= j < r@.len() ==> #[trigger] r@[j].0 <= r@[j].1 <= text@.len(),
        forall|j: int| 0 <= j < r@.len() - 1 ==> #[trigger] r@[j].1 <= r@[j + 1].0,
{
    match core::str::from_utf8(text) {
        Ok(s) => p.regex.find_iter(s).map(|m| (m.start(), m.end())).collect(),
        Err(_) => Vec::new(),
    }
}

/// One active highlight pattern. `regex` is private and is always exactly the
/// compilation of `(pattern, case_sensitive)`: it is only written with the
/// result of compiling those two fields.
#[derive(Debug)]
pub struct Pattern {
    /// The pattern text as the user entered it.
    pub pattern: String,
    /// True when matching distinguishes letter case.
    pub case_sensitive: bool,
    regex: regex::Regex,
}

impl Pattern {
    /// The pattern text, as contracts see it.
    pub closed spec fn spec_text(self) -> Seq<char> {
        self.pattern@
    }

    /// The case mode, as contracts see it.
    pub closed spec fn spec_case_sensitive(self) -> bool {
        self.case_sensitive
    }

    /// The matcher's compilation invariant, as far as it is visible to
    /// contracts: the stored text and case mode form a valid pattern.
    pub open spec fn wf(self) -> bool {
        pattern_compiles(self.spec_text(), self.spec_case_sensitive())
    }

    /// Whether this pattern matches anywhere in `text`.
    pub fn is_match(&self, text: &Vec<u8>) -> (r: bool)
        ensures
            r == (match_ranges_of(self.spec_text(), self.spec_case_sensitive(), text@).len()
                > 0),
    {
        let ranges = find_in(self, text);
        ranges.len() > 0
    }

    /// Flips the case mode, recompiling the matcher for the same text. When
    /// recompilation fails, the pattern is left entirely unchanged and the
    /// compiler's message is returned.
    pub fn toggle_case(&mut self) -> (r: Result<(), String>)
        ensures
            r is Ok <==> pattern_compiles(
                old(self).spec_text(),
                !old(self).spec_case_sensitive(),
            ),
            r is Ok ==> final(self).spec_text() == old(self).spec_text()
                && final(self).spec_case_sensitive() == !old(self).spec_case_sensitive()
                && final(self).wf(),
            r matches Err(m) ==> *final(self) == *old(self) && m@ == compile_error_of(
                old(self).spec_text(),
                !old(self).spec_case_sensitive(),
            ),
    {
        let flipped = !self.case_sensitive;
        match compile_regex(&self.pattern, flipped) {
            Ok(regex) => {
                self.case_sensitive = flipped;
                self.regex = regex;
                Ok(())
            },
            Err(m) => Err(m),
        }
    }
}

/// Compiles `pattern` under the given case mode into a `Pattern`. On failure
/// the compiler's message is returned and nothing is built.
pub fn build_pattern(pattern: String, case_sensitive: bool) -> (r: Result<Pattern, String>)
    ensures
        r is Ok <==> pattern_compiles(pattern@, case_sensitive),
        r matches Ok(p) ==> p.spec_text() == pattern@ && p.spec_case_sensitive()
            == case_sensitive && p.wf(),
        r matches Err(m) ==> m@ == compile_error_of(pattern@, case_sensitive),
{
    match compile_regex(&pattern, case_sensitive) {
        Ok(regex) => Ok(Pattern { pattern, case_sensitive, regex }),
        Err(m) => Err(m),
    }
}

} // verus!
