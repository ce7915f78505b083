//! File-name patterns, compiled once and matched many times. The matching is
//! done by the `regex` and `glob` crates; what they return is named here and
//! the rest of the library reasons over those names.

use crate::text::owned;
use vstd::prelude::*;

verus! {

#[verifier::external_type_specification]
#[verifier::external_body]
pub struct ExRegex(regex::Regex);

#[verifier::external_type_specification]
#[verifier::external_body]
pub struct ExRegexError(regex::Error);

#[verifier::external_type_specification]
#[verifier::external_body]
pub struct ExGlobPattern(glob::Pattern);

#[verifier::external_type_specification]
#[verifier::external_body]
pub struct ExGlobPatternError(glob::PatternError);

/// Whether `regex::Regex::new` accepts the pattern.
pub uninterp spec fn regex_compiles(pattern: Seq<char>) -> bool;

/// Whether the regular expression `pattern` matches somewhere in `text`.
pub uninterp spec fn regex_is_match(pattern: Seq<char>, text: Seq<char>) -> bool;

/// The names of the capture groups of `pattern`, by group index; `None` for a
/// group without a name.
pub uninterp spec fn regex_group_names(pattern: Seq<char>) -> Seq<Option<Seq<char>>>;

/// What the capture groups of `pattern` hold at its first match in `text`, by
/// group index (`None` for a group that took no part); `None` when there is no
/// match.
pub uninterp spec fn regex_groups(pattern: Seq<char>, text: Seq<char>) -> Option<
    Seq<Option<Seq<char>>>,
>;

/// Whether `glob::Pattern::new` accepts the pattern.
pub uninterp spec fn glob_compiles(pattern: Seq<char>) -> bool;

/// Whether the shell pattern `pattern` matches the whole of `text`.
pub uninterp spec fn glob_matches(pattern: Seq<char>, text: Seq<char>) -> bool;

/// A text is portable when it holds no `\`. The `glob` crate reads `\` as a
/// path separator on some hosts and as an ordinary character on others, so
/// only on portable texts is its answer the same everywhere.
pub open spec fn portable(s: Seq<char>) -> bool {
    forall|i: int| 0 <= i < s.len() ==> s[i] != '\\'
}

/// `regex::Regex::new` compiles a pattern; it fails on a pattern with a syntax
/// error and on one whose program would be larger than the default limit.
pub assume_specification[ regex::Regex::new ](re: &str) -> (r: Result<regex::Regex, regex::Error>)
    ensures
        r is Ok <==> regex_compiles(re@),
;

/// `glob::Pattern::new` compiles a shell pattern; it fails on more than two
/// `*` in a row, on `**` that is not a whole path component, and on an
/// unclosed `[`.
pub assume_specification[ glob::Pattern::new ](pattern: &str) -> (r: Result<
    glob::Pattern,
    glob::PatternError,
>)
    ensures
        portable(pattern@) ==> (r is Ok <==> glob_compiles(pattern@)),
;

/// A regular expression together with the pattern it was compiled from.
/// Only `compile` makes one, so `program` is always the program of `pattern`.
#[derive(Debug)]
pub struct CompiledRegex {
    pattern: String,
    program: regex::Regex,
}

impl View for CompiledRegex {
    type V = Seq<char>;

    closed spec fn view(&self) -> Seq<char> {
        self.pattern@
    }
}

/// A shell pattern together with the text it was compiled from.
/// Only `compile` makes one, so `program` is always the program of `pattern`.
#[derive(Debug)]
pub struct CompiledGlob {
    pattern: String,
    program: glob::Pattern,
}

impl View for CompiledGlob {
    type V = Seq<char>;

    closed spec fn view(&self) -> Seq<char> {
        self.pattern@
    }
}

/// `Regex::is_match` on the compiled program.
#[verifier::external_body]
pub(crate) fn regex_matches(re: &CompiledRegex, text: &str) -> (r: bool)
    ensures
        r == regex_is_match(re@, text@),
{
    re.program.is_match(text)
}

/// `Regex::capture_names` on the compiled program: one item for each group,
/// the whole match first, each name copied into a `String`.
#[verifier::external_body]
pub(crate) fn regex_names(re: &CompiledRegex) -> (names: Vec<Option<String>>)
    ensures
        names.deep_view() == regex_group_names(re@),
{
    re.program.capture_names().map(|n| n.map(|s| s.to_string())).collect()
}

/// `Regex::captures` on the compiled program: the first match, as the text of
/// each of its groups in the order of `Captures::iter`.
#[verifier::external_body]
pub(crate) fn regex_captures(re: &CompiledRegex, text: &str) -> (groups: Option<Vec<Option<String>>>)
    ensures
        groups.deep_view() == regex_groups(re@, text@),
{
    re.program.captures(text).map(
        |c| c.iter().map(|m| m.map(|m| m.as_str().to_string())).collect(),
    )
}

/// `Pattern::matches` on the compiled program, with the crate's default
/// options: case matters, `*` and `?` match any character.
#[verifier::external_body]
pub(crate) fn glob_matches_text(g: &CompiledGlob, text: &str) -> (r: bool)
    ensures
        portable(g@) && portable(text@) ==> r == glob_matches(g@, text@),
{
    g.program.matches(text)
}

impl CompiledRegex {
    /// Compiles `pattern`; `None` when it is not a regular expression.
    pub fn compile(pattern: &str) -> (r: Option<CompiledRegex>)
        ensures
            r is Some <==> regex_compiles(pattern@),
            r is Some ==> r.unwrap()@ == pattern@,
    {
        match regex::Regex::new(pattern) {
            Ok(program) => Some(CompiledRegex { pattern: owned(pattern), program }),
            Err(_) => None,
        }
    }
}

impl CompiledGlob {
    /// Compiles `pattern`; `None` when it is not a shell pattern.
    pub fn compile(pattern: &str) -> (r: Option<CompiledGlob>)
        ensures
            portable(pattern@) ==> (r is Some <==> glob_compiles(pattern@)),
            r is Some ==> r.unwrap()@ == pattern@,
    {
        match glob::Pattern::new(pattern) {
            Ok(program) => Some(CompiledGlob { pattern: owned(pattern), program }),
            Err(_) => None,
        }
    }
}

} // verus!
