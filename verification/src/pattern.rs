//! Compiled regular expressions and terminal painting.
//!
//! The regex engine and the terminal color renderer are outside primitives.
//! Their behavior is named by uninterpreted spec functions: whether a pattern
//! compiles, whether it matches a line, what a capture group extracted, and
//! what a painted line looks like.  Each is a pure function of its arguments,
//! so one name stands for one outside operation, and every contract in the
//! library speaks through these names.

use vstd::prelude::*;
use vstd::string::StringExecFns;

verus! {

/// Whether `pattern` is a valid regular expression, that is, whether
/// `regex::Regex::new` accepts it.  Compilation depends on the pattern alone.
pub uninterp spec fn regex_valid(pattern: Seq<char>) -> bool;

/// Whether the regular expression `pattern` matches anywhere in `line`
/// (substring match, not a full-line anchor), as `regex::Regex::is_match`
/// decides it.  The result depends on the pattern and the line alone.
pub uninterp spec fn regex_matches(pattern: Seq<char>, line: Seq<char>) -> bool;

/// The text of capture group `group` in the first match of `pattern` in
/// `line`: `None` when the pattern does not match, when the group index is
/// out of range, or when the group did not participate in the match.  Group 0
/// is the entire matched substring.  The result depends on the arguments
/// alone.
pub uninterp spec fn regex_captured(pattern: Seq<char>, line: Seq<char>, group: int) -> Option<
    Seq<char>,
>;

/// The text of `text` annotated with a terminal color: the 256-palette color
/// `Some(c)`, or the default white when `None`.  This names what
/// `ansi_term::Color::paint` produces; the result depends on the color and
/// the text alone.
pub uninterp spec fn painted(color: Option<u8>, text: Seq<char>) -> Seq<char>;

#[verifier::external_type_specification]
#[verifier::external_body]
pub struct ExRegex(regex::Regex);

/// An immutable compiled regular expression together with the raw pattern
/// text it was compiled from.  The two fields always belong together: every
/// constructor compiles `regex` from exactly the text held in `pattern`.
#[derive(Debug)]
pub struct CompiledPattern {
    regex: regex::Regex,
    pattern: String,
}

impl View for CompiledPattern {
    type V = Seq<char>;

    closed spec fn view(&self) -> Seq<char> {
        self.pattern@
    }
}

impl CompiledPattern {
    /// Compiles `pattern`.  On failure the message of the compilation error
    /// is returned.
    ///
    /// Relies on `regex::Regex::new`: it returns `Ok` exactly when the
    /// pattern is a valid regular expression, and the compiled value matches
    /// as that pattern.
    #[verifier::external_body]
    pub fn new(pattern: &str) -> (r: Result<CompiledPattern, String>)
        ensures
            r is Ok <==> regex_valid(pattern@),
            r matches Ok(p) ==> p@ == pattern@,
    {
        match regex::Regex::new(pattern) {
            Ok(regex) => Ok(CompiledPattern { regex, pattern: pattern.to_owned() }),
            Err(err) => Err(format!("{}", err)),
        }
    }

    /// The raw pattern text this value was compiled from.
    pub fn as_str(&self) -> (r: &str)
        ensures
            r@ == self@,
    {
        self.pattern.as_str()
    }

    /// Whether this pattern matches anywhere in `line`.
    ///
    /// Relies on `regex::Regex::is_match`: true if and only if there is a
    /// match for the regex anywhere in the haystack.
    #[verifier::external_body]
    pub fn is_match(&self, line: &str) -> (r: bool)
        ensures
            r == regex_matches(self@, line@),
    {
        self.regex.is_match(line)
    }

    /// The text of capture group `group` in the first match of this pattern
    /// in `line`, or `None` when there is no match or the group did not
    /// participate.
    ///
    /// Relies on `regex::Regex::captures` (returns `Some` if and only if the
    /// regex matches), `regex::Captures::get` (`None` for a group that is out
    /// of range or did not participate; group 0 is always present and is the
    /// whole match) and `regex::Match::as_str`.
    #[verifier::external_body]
    pub fn capture_text(&self, line: &str, group: usize) -> (r: Option<String>)
        ensures
            r is Some <==> regex_captured(self@, line@, group as int) is Some,
            r matches Some(s) ==> regex_captured(self@, line@, group as int) matches Some(t)
                && s@ == t,
            r is Some ==> regex_matches(self@, line@),
            group == 0 ==> ((r is Some) <==> regex_matches(self@, line@)),
    {
        self.regex.captures(line).and_then(|c| c.get(group)).map(|m| m.as_str().to_owned())
    }
}

/// The pattern text that `create_regex_with_prefix` compiles: the prefix, if
/// any, concatenated before the pattern.
pub open spec fn spec_prefixed(prefix: Option<Seq<char>>, pattern: Seq<char>) -> Seq<char> {
    match prefix {
        Some(p) => p + pattern,
        None => pattern,
    }
}

/// The view of an optional borrowed prefix string.
pub open spec fn spec_opt_str(prefix: Option<&str>) -> Option<Seq<char>> {
    match prefix {
        Some(p) => Some(p@),
        None => None,
    }
}

/// Compiles `pattern` with the shared `prefix`, when one is given, prepended
/// as regex concatenation.
pub fn create_regex_with_prefix(prefix: &Option<&str>, pattern: &str) -> (r: Result<
    CompiledPattern,
    String,
>)
    ensures
        r is Ok <==> regex_valid(spec_prefixed(spec_opt_str(*prefix), pattern@)),
        r matches Ok(p) ==> p@ == spec_prefixed(spec_opt_str(*prefix), pattern@),
{
    let mut full: String = String::new();
    match prefix {
        Some(p) => {
            full.append(p);
        },
        None => {},
    }
    full.append(pattern);
    proof {
        assert(full@ =~= spec_prefixed(spec_opt_str(*prefix), pattern@));
    }
    CompiledPattern::new(full.as_str())
}

/// Paints `text` with the fixed 256-palette color `Some(c)`, or with the
/// default white when `None`.
///
/// Relies on `ansi_term::Color::paint` (with `Color::Fixed` or
/// `Color::White`) and its `Display` rendering: the annotated text depends on
/// the color and the text alone.
#[verifier::external_body]
pub(crate) fn paint(color: Option<u8>, text: &str) -> (r: String)
    ensures
        r@ == painted(color, text@),
{
    let c = match color {
        Some(v) => ansi_term::Color::Fixed(v),
        None => ansi_term::Color::White,
    };
    format!("{}", c.paint(text))
}

} // verus!
