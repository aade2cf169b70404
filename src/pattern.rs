//! Compiled regular expressions, seen by the proofs through the source text
//! and the case-insensitivity flag they were built from.
use vstd::prelude::*;
use regex::Error as RegexError;

verus! {

#[verifier::external_type_specification]
#[verifier::external_body]
pub struct ExRegex(regex::Regex);

#[verifier::external_type_specification]
#[verifier::external_body]
pub struct ExRegexSet(regex::RegexSet);

#[verifier::external_type_specification]
#[verifier::external_body]
pub struct ExRegexError(RegexError);

/// Whether the expression `src` (case-insensitive when `icase` holds) matches
/// anywhere in `hay`.
pub uninterp spec fn regex_is_match(src: Seq<char>, icase: bool, hay: Seq<char>) -> bool;

/// The text of the leftmost-first match of `src` in `hay`, if any.
pub uninterp spec fn regex_find(src: Seq<char>, icase: bool, hay: Seq<char>) -> Option<Seq<char>>;

/// `None` when `src` does not match `hay`; otherwise the text of capture group 1
/// in the leftmost-first match, `None` inside when that group did not take part.
pub uninterp spec fn regex_capture1(src: Seq<char>, icase: bool, hay: Seq<char>) -> Option<
    Option<Seq<char>>,
>;

/// `hay` with every non-overlapping match of `src` deleted.
pub uninterp spec fn regex_delete_all(src: Seq<char>, icase: bool, hay: Seq<char>) -> Seq<char>;

/// Whether `src` compiles as an expression with the given case-insensitivity flag.
pub uninterp spec fn regex_compiles(src: Seq<char>, icase: bool) -> bool;

/// Whether every text of `srcs` compiles into one set with the given
/// case-insensitivity flag.
pub uninterp spec fn regex_set_compiles(srcs: Seq<Seq<char>>, icase: bool) -> bool;

/// Relies on `regex::RegexBuilder::build`: compiles `src` with the given
/// case-insensitivity flag; whether it succeeds depends on the text and flag.
#[verifier::external_body]
fn build_regex(src: &str, icase: bool) -> (r: Result<regex::Regex, RegexError>)
    ensures
        r is Ok == regex_compiles(src@, icase),
{
    regex::RegexBuilder::new(src).case_insensitive(icase).build()
}

/// Relies on `regex::RegexSetBuilder::build`: compiles every pattern of `srcs`
/// into one set, with the given case-insensitivity flag. A set without patterns
/// always builds (`RegexSet::empty` unwraps exactly that build).
#[verifier::external_body]
fn build_regex_set(srcs: &Vec<String>, icase: bool) -> (r: Result<regex::RegexSet, RegexError>)
    ensures
        r is Ok == regex_set_compiles(srcs.deep_view(), icase),
        srcs@.len() == 0 ==> r is Ok,
{
    regex::RegexSetBuilder::new(srcs).case_insensitive(icase).build()
}

/// A compiled regular expression together with the text and flag it was
/// compiled from. Its fields are set only by the constructors below, so the
/// compiled form always agrees with `source` and `icase`.
#[derive(Debug)]
pub struct Pattern {
    re: regex::Regex,
    source: String,
    icase: bool,
}

impl View for Pattern {
    type V = (Seq<char>, bool);

    closed spec fn view(&self) -> (Seq<char>, bool) {
        (self.source@, self.icase)
    }
}

impl Pattern {
    /// Compiles `src` as a case-sensitive expression.
    pub fn new(src: &str) -> (r: Result<Pattern, RegexError>)
        ensures
            r is Ok == regex_compiles(src@, false),
            r matches Ok(p) ==> p@ == (src@, false),
    {
        Self::build(src, false)
    }

    /// Compiles `src` as a case-insensitive expression, as rule files do.
    pub fn case_insensitive(src: &str) -> (r: Result<Pattern, RegexError>)
        ensures
            r is Ok == regex_compiles(src@, true),
            r matches Ok(p) ==> p@ == (src@, true),
    {
        Self::build(src, true)
    }

    fn build(src: &str, icase: bool) -> (r: Result<Pattern, RegexError>)
        ensures
            r is Ok == regex_compiles(src@, icase),
            r matches Ok(p) ==> p@ == (src@, icase),
    {
        match build_regex(src, icase) {
            Ok(re) => Ok(Pattern { re, source: src.to_owned(), icase }),
            Err(e) => Err(e),
        }
    }

    /// The text this pattern was compiled from.
    pub fn as_str(&self) -> (r: &str)
        ensures
            r@ == self@.0,
    {
        self.source.as_str()
    }

    /// Relies on `regex::Regex::is_match`.
    #[verifier::external_body]
    pub(crate) fn is_match(&self, hay: &str) -> (r: bool)
        ensures
            r == regex_is_match(self@.0, self@.1, hay@),
    {
        self.re.is_match(hay)
    }

    /// Relies on `regex::Regex::find`: the text of the leftmost-first match.
    #[verifier::external_body]
    pub(crate) fn find<'a>(&self, hay: &'a str) -> (r: Option<&'a str>)
        ensures
            match r {
                Some(m) => regex_find(self@.0, self@.1, hay@) == Some(m@),
                None => regex_find(self@.0, self@.1, hay@) is None,
            },
    {
        self.re.find(hay).map(|m| m.as_str())
    }

    /// Relies on `regex::Regex::captures` and `regex::Captures::get(1)`.
    #[verifier::external_body]
    pub(crate) fn capture1<'a>(&self, hay: &'a str) -> (r: Option<Option<&'a str>>)
        ensures
            match r {
                Some(Some(c)) => regex_capture1(self@.0, self@.1, hay@) == Some(Some(c@)),
                Some(None) => regex_capture1(self@.0, self@.1, hay@) == Some(None::<Seq<char>>),
                None => regex_capture1(self@.0, self@.1, hay@) is None,
            },
    {
        self.re.captures(hay).map(|c| c.get(1).map(|m| m.as_str()))
    }

    /// Relies on `regex::Regex::replace_all` with an empty replacement.
    #[verifier::external_body]
    pub(crate) fn delete_all(&self, hay: &str) -> (r: String)
        ensures
            r@ == regex_delete_all(self@.0, self@.1, hay@),
    {
        self.re.replace_all(hay, "").into_owned()
    }
}

/// Several patterns compiled into one matcher that tells whether any of them
/// matches. Its fields are set only by the constructors below.
#[derive(Debug)]
pub struct PatternSet {
    set: regex::RegexSet,
    sources: Vec<String>,
    icase: bool,
}

impl View for PatternSet {
    type V = (Seq<Seq<char>>, bool);

    closed spec fn view(&self) -> (Seq<Seq<char>>, bool) {
        (self.sources.deep_view(), self.icase)
    }
}

/// Whether some pattern of the set matches `hay`.
pub open spec fn any_matches(set: (Seq<Seq<char>>, bool), hay: Seq<char>) -> bool {
    exists|i: int| 0 <= i < set.0.len() && #[trigger] regex_is_match(set.0[i], set.1, hay)
}

impl PatternSet {
    /// Compiles every text of `srcs` into one set.
    pub fn new(srcs: Vec<String>, icase: bool) -> (r: Result<PatternSet, RegexError>)
        ensures
            r is Ok == regex_set_compiles(srcs.deep_view(), icase),
            srcs@.len() == 0 ==> r is Ok,
            r matches Ok(s) ==> s@ == (srcs.deep_view(), icase),
    {
        match build_regex_set(&srcs, icase) {
            Ok(set) => Ok(PatternSet { set, sources: srcs, icase }),
            Err(e) => Err(e),
        }
    }

    /// Relies on `regex::RegexSet::is_match`: true iff one of the set's
    /// expressions matches `hay`.
    #[verifier::external_body]
    pub(crate) fn is_match(&self, hay: &str) -> (r: bool)
        ensures
            r == any_matches(self@, hay@),
    {
        self.set.is_match(hay)
    }
}

} // verus!
