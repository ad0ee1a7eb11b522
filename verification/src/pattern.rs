//! Regular expressions, through the `regex` crate. What a pattern accepts
//! and what a search finds are named by uninterpreted spec functions of the
//! pattern text and the haystack; the facts that the crate documents are
//! stated beside them.

use vstd::prelude::*;
use regex::Regex;
use vstd::utf8::encode_utf8;

verus! {

#[verifier::external_type_specification]
#[verifier::external_body]
pub struct ExRegex(Regex);

#[verifier::external_type_specification]
#[verifier::external_body]
pub struct ExRegexError(regex::Error);

/// One capture group of a match: byte offsets into the haystack and the
/// matched text.
pub struct Group {
    pub start: usize,
    pub end: usize,
    pub text: String,
}

/// The mathematical value of a [`Group`].
pub ghost struct GroupView {
    pub start: usize,
    pub end: usize,
    pub text: Seq<char>,
}

impl DeepView for Group {
    type V = GroupView;

    open spec fn deep_view(&self) -> GroupView {
        GroupView { start: self.start, end: self.end, text: self.text@ }
    }
}

/// Whether `Regex::new` accepts `pattern` (its syntax is valid and the
/// compiled program fits the default size limit).
pub uninterp spec fn regex_accepts(pattern: Seq<char>) -> bool;

/// The capture groups of the leftmost-first match of `pattern` in
/// `haystack`, as `Regex::captures` reports them, or `None` when there is
/// no match.
pub uninterp spec fn regex_captures(pattern: Seq<char>, haystack: Seq<char>) -> Option<
    Seq<Option<GroupView>>,
>;

/// The capture groups of each successive non-overlapping match of `pattern`
/// in `haystack`, as `Regex::captures_iter` yields them.
pub uninterp spec fn regex_captures_all(pattern: Seq<char>, haystack: Seq<char>) -> Seq<
    Seq<Option<GroupView>>,
>;

/// Group `i` of a match: `None` when the match has no such group or the
/// group did not take part in it.
pub open spec fn group_text(groups: Seq<Option<GroupView>>, i: int) -> Option<Seq<char>> {
    if 0 <= i < groups.len() {
        match groups[i] {
            Some(g) => Some(g.text),
            None => None,
        }
    } else {
        None
    }
}

/// The text of group `i` of a match, if the group took part in it.
pub fn group_text_at(groups: &Vec<Option<Group>>, i: usize) -> (r: Option<String>)
    ensures
        r.deep_view() == group_text(groups.deep_view(), i as int),
{
    if i < groups.len() {
        match &groups[i] {
            Some(g) => Some(g.text.clone()),
            None => None,
        }
    } else {
        None
    }
}

/// Characters that have a meaning in the regex syntax (`regex_syntax::is_meta_character`).
pub open spec fn is_meta_character(c: char) -> bool {
    c == '\\' || c == '.' || c == '+' || c == '*' || c == '?' || c == '(' || c == ')' || c == '|'
        || c == '[' || c == ']' || c == '{' || c == '}' || c == '^' || c == '$' || c == '#' || c
        == '&' || c == '-' || c == '~'
}

/// `text` with a backslash before every meta character, so that as a
/// pattern it matches `text` literally.
pub open spec fn escape_spec(text: Seq<char>) -> Seq<char>
    decreases text.len(),
{
    if text.len() == 0 {
        Seq::<char>::empty()
    } else {
        escape_spec(text.drop_last()) + if is_meta_character(text.last()) {
            seq!['\\', text.last()]
        } else {
            seq![text.last()]
        }
    }
}

/// `regex::escape`: in the version used here it walks the characters and
/// pushes a backslash before each one for which `is_meta_character` holds.
#[verifier::external_body]
pub(crate) fn escape(text: &str) -> (r: String)
    ensures
        r@ == escape_spec(text@),
{
    regex::escape(text)
}

/// The pattern text is not a regular expression that `Regex::new` accepts.
#[derive(Debug, Clone, Copy, PartialEq, Eq)]
pub struct InvalidPattern;

/// A compiled regular expression together with its pattern text.
pub struct Pattern {
    source: String,
    re: Regex,
}

impl View for Pattern {
    type V = Seq<char>;

    /// The pattern text the expression was compiled from.
    closed spec fn view(&self) -> Seq<char> {
        self.source@
    }
}

impl Pattern {
    /// `Regex::new`: compiles `source`; the contract claims that it succeeds
    /// exactly when `regex_accepts(source@)` and that the compiled value is
    /// kept with `source`.
    #[verifier::external_body]
    pub(crate) fn new(source: &str) -> (r: Result<Pattern, regex::Error>)
        ensures
            r is Ok <==> regex_accepts(source@),
            r matches Ok(p) ==> p@ == source@,
    {
        match Regex::new(source) {
            Ok(re) => Ok(Pattern { source: source.to_string(), re }),
            Err(e) => Err(e),
        }
    }

    /// Compiles `source`: `Err` exactly when the regex crate rejects it.
    pub fn compile(source: &str) -> (r: Result<Pattern, InvalidPattern>)
        ensures
            r is Ok <==> regex_accepts(source@),
            r matches Ok(p) ==> p@ == source@,
    {
        match Pattern::new(source) {
            Ok(p) => Ok(p),
            Err(_) => Err(InvalidPattern),
        }
    }

    /// `Regex::clone`: the copy holds the same compiled expression.
    #[verifier::external_body]
    pub(crate) fn duplicate(&self) -> (r: Pattern)
        ensures
            r@ == self@,
    {
        Pattern { source: self.source.clone(), re: self.re.clone() }
    }

    /// `Regex::captures`: the contract claims the named result, and, as the
    /// crate documents, that a match always has group 0 and that the
    /// offsets of a group are byte offsets into the haystack.
    #[verifier::external_body]
    pub(crate) fn captures(&self, haystack: &str) -> (r: Option<Vec<Option<Group>>>)
        ensures
            r.deep_view() == regex_captures(self@, haystack@),
            r matches Some(g) ==> g.len() >= 1 && g[0] is Some,
            r matches Some(g) ==> forall|k: int|
                0 <= k < g.len() ==> (#[trigger] g[k] matches Some(m) ==> m.start <= m.end
                    <= encode_utf8(haystack@).len()),
    {
        self.re.captures(haystack).map(
            |caps|
                caps.iter().map(
                    |m|
                        m.map(
                            |m| Group { start: m.start(), end: m.end(), text: m.as_str().to_string() },
                        ),
                ).collect(),
        )
    }

    /// `Regex::captures_iter`, collected: the contract claims the named
    /// result, and that every match has group 0.
    #[verifier::external_body]
    pub(crate) fn captures_all(&self, haystack: &str) -> (r: Vec<Vec<Option<Group>>>)
        ensures
            r.deep_view() == regex_captures_all(self@, haystack@),
            forall|k: int| 0 <= k < r.len() ==> r[k].len() >= 1 && (#[trigger] r[k])[0] is Some,
    {
        self.re.captures_iter(haystack).map(
            |caps|
                caps.iter().map(
                    |m|
                        m.map(
                            |m| Group { start: m.start(), end: m.end(), text: m.as_str().to_string() },
                        ),
                ).collect(),
        ).collect()
    }

    /// `Regex::is_match`: as the crate documents, true exactly when there is
    /// a match, that is when `captures` finds one.
    #[verifier::external_body]
    pub(crate) fn is_match(&self, haystack: &str) -> (r: bool)
        ensures
            r == regex_captures(self@, haystack@) is Some,
    {
        self.re.is_match(haystack)
    }
}

} // verus!
