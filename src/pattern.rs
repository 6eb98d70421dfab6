//! Compiled regular expressions, kept together with the text they were compiled from.
use vstd::prelude::*;

verus! {

#[verifier::external_type_specification]
#[verifier::external_body]
pub struct ExRegex(regex::Regex);

#[verifier::external_type_specification]
#[verifier::external_body]
pub struct ExRegexError(regex::Error);

/// Whether `pattern` is a regular expression that compiles.
pub uninterp spec fn regex_compiles(pattern: Seq<char>) -> bool;

/// Whether the regular expression `pattern` matches somewhere in `text`.
pub uninterp spec fn regex_matches(pattern: Seq<char>, text: Seq<char>) -> bool;

/// `text` with the leftmost match of `pattern` replaced by `replacement`, taken
/// literally.
pub uninterp spec fn regex_replaced(
    pattern: Seq<char>,
    text: Seq<char>,
    replacement: Seq<char>,
) -> Seq<char>;

/// A compiled regular expression. The only way to build one is [`Pattern::new`],
/// so `regex` is always the compilation of `source`.
pub struct Pattern {
    source: String,
    regex: regex::Regex,
}

impl View for Pattern {
    type V = Seq<char>;

    closed spec fn view(&self) -> Seq<char> {
        self.source@
    }
}

impl Pattern {
    /// Relies on `regex::Regex::new`: it fails exactly on sources that do not compile.
    #[verifier::external_body]
    pub(crate) fn new(source: &str) -> (r: Result<Pattern, regex::Error>)
        ensures
            r is Ok <==> regex_compiles(source@),
            r matches Ok(p) ==> p@ == source@,
    {
        match regex::Regex::new(source) {
            Ok(regex) => Ok(Pattern { source: source.to_string(), regex }),
            Err(e) => Err(e),
        }
    }

    /// The source text this pattern was compiled from.
    pub fn as_str(&self) -> (r: &str)
        ensures
            r@ == self@,
    {
        self.source.as_str()
    }

    /// Whether this pattern was compiled from `source`.
    pub fn has_source(&self, source: &String) -> (r: bool)
        ensures
            r == (self@ == source@),
    {
        self.source == *source
    }

    /// The number of characters in the source text.
    pub fn source_len(&self) -> (r: usize)
        ensures
            r == self@.len(),
    {
        let chars = crate::text::chars_of(self.source.as_str());
        chars.len()
    }

    /// Relies on `regex::Regex::is_match`.
    #[verifier::external_body]
    pub(crate) fn is_match(&self, text: &str) -> (r: bool)
        ensures
            r == regex_matches(self@, text@),
    {
        self.regex.is_match(text)
    }

    /// Relies on `regex::Regex::replace` with `regex::NoExpand`: the leftmost match is
    /// replaced by `replacement` taken literally, and a text
    /// without a match comes back unchanged.
    #[verifier::external_body]
    pub(crate) fn replace(&self, text: &str, replacement: &str) -> (r: String)
        ensures
            r@ == regex_replaced(self@, text@, replacement@),
            !regex_matches(self@, text@) ==> r@ == text@,
    {
        self.regex.replace(text, regex::NoExpand(replacement)).into_owned()
    }
}

} // verus!
