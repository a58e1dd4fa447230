//! Regular-expression matching (through the `regex` crate) and `Debug`
//! text of strings.
use vstd::prelude::*;

verus! {

/// `regex::Regex`, a compiled pattern; opaque here.
#[verifier::external_type_specification]
#[verifier::external_body]
pub struct ExRegex(regex::Regex);

/// `regex::Error`, why a pattern did not compile; opaque here.
#[verifier::external_type_specification]
#[verifier::external_body]
pub struct ExRegexError(regex::Error);

/// A compiled regular expression together with the pattern it was compiled from.
pub struct CompiledPattern {
    source: String,
    re: regex::Regex,
}

impl View for CompiledPattern {
    type V = Seq<char>;

    /// The pattern text.
    closed spec fn view(&self) -> Seq<char> {
        self.source@
    }
}

/// Whether `regex::Regex::new` accepts `pattern`.
pub uninterp spec fn regex_compiles(pattern: Seq<char>) -> bool;

/// The capture groups of the leftmost-first match of `pattern` in `text`
/// (group 0 is the whole match; a group that did not take part is `None`),
/// or `None` when the pattern does not match anywhere in `text`.
pub uninterp spec fn regex_captures(pattern: Seq<char>, text: Seq<char>) -> Option<
    Seq<Option<Seq<char>>>,
>;

/// The text that `Debug` formatting gives for the string `s`: `s` in double
/// quotes, with the characters that need it escaped.
pub uninterp spec fn str_debug(s: Seq<char>) -> Seq<char>;

/// The groups held by a `captures` result, as texts.
pub open spec fn groups_view(r: Option<Vec<Option<String>>>) -> Option<Seq<Option<Seq<char>>>> {
    match r {
        Some(v) => Some(
            v@.map_values(
                |g: Option<String>|
                    match g {
                        Some(s) => Some(s@),
                        None => None,
                    },
            ),
        ),
        None => None,
    }
}

/// Compiles `pattern` with `regex::Regex::new`. Trusted: the result is
/// `Ok` exactly when `regex_compiles` holds of the pattern, and the compiled
/// value remembers the pattern it came from.
#[verifier::external_body]
pub(crate) fn compile(pattern: &str) -> (r: Result<CompiledPattern, regex::Error>)
    ensures
        r is Ok <==> regex_compiles(pattern@),
        r matches Ok(c) ==> c@ == pattern@,
{
    match regex::Regex::new(pattern) {
        Ok(re) => Ok(CompiledPattern { source: pattern.to_string(), re }),
        Err(e) => Err(e),
    }
}

/// Runs `regex::Regex::captures` and copies every group out as a `String`.
/// Trusted: the groups are those that `regex_captures` names for the
/// pattern and the text.
#[verifier::external_body]
pub(crate) fn captures(p: &CompiledPattern, text: &str) -> (r: Option<Vec<Option<String>>>)
    ensures
        groups_view(r) == regex_captures(p@, text@),
{
    let caps = p.re.captures(text)?;
    let mut groups = Vec::new();
    for m in caps.iter() {
        groups.push(
            match m {
                Some(m) => Some(m.as_str().to_string()),
                None => None,
            },
        );
    }
    Some(groups)
}

/// `Debug` formatting of a string (`format!("{:?}", s)`). Trusted: the
/// result is what `str_debug` names for `s`.
#[verifier::external_body]
pub(crate) fn debug_text(s: &str) -> (r: String)
    ensures
        r@ == str_debug(s@),
{
    format!("{:?}", s)
}

} // verus!
