//! Regular expressions, through the `regex` crate.

use vstd::prelude::*;
use crate::text::{chars_of, push_char, owned};

verus! {

#[verifier::external_type_specification]
#[verifier::external_body]
pub struct ExRegex(regex::Regex);

/// Whether `regex::Regex::new` accepts a pattern.
pub uninterp spec fn regex_compiles(pattern: Seq<char>) -> bool;

/// What group 1 of the leftmost-first match of a pattern in a haystack
/// holds (`Regex::captures`, then `Captures::get(1)`); `None` when there is
/// no match or the group does not take part in it.
pub uninterp spec fn regex_first_group(pattern: Seq<char>, haystack: Seq<char>) -> Option<Seq<char>>;

/// The texts of the successive non-overlapping matches of a pattern in a
/// haystack (`Regex::find_iter`).
pub uninterp spec fn regex_matches_all(pattern: Seq<char>, haystack: Seq<char>) -> Seq<Seq<char>>;

/// The texts between the matches of a pattern in a haystack, the text
/// before the first and after the last included (`Regex::split`).
pub uninterp spec fn regex_split_all(pattern: Seq<char>, haystack: Seq<char>) -> Seq<Seq<char>>;

/// The characters that `regex::escape` puts a backslash in front of.
pub open spec fn is_regex_meta(c: char) -> bool {
    c == '\\' || c == '.' || c == '+' || c == '*' || c == '?' || c == '(' || c == ')' || c == '|'
        || c == '[' || c == ']' || c == '{' || c == '}' || c == '^' || c == '$' || c == '#'
        || c == '&' || c == '-' || c == '~'
}

/// `regex::escape`: each meta character gets a backslash in front of it.
pub open spec fn regex_escape_spec(s: Seq<char>) -> Seq<char>
    decreases s.len(),
{
    if s.len() == 0 {
        Seq::empty()
    } else {
        regex_escape_spec(s.drop_last()) + if is_regex_meta(s.last()) {
            seq!['\\', s.last()]
        } else {
            seq![s.last()]
        }
    }
}

/// The pattern that matches `s` literally.
pub fn regex_escape(s: &str) -> (r: String)
    ensures
        r@ == regex_escape_spec(s@),
{
    let v = chars_of(s);
    let mut r = String::new();
    let mut i: usize = 0;
    while i < v.len()
        invariant
            i <= v@.len(),
            v@ == s@,
            r@ == regex_escape_spec(v@.take(i as int)),
        decreases v.len() - i,
    {
        let c = v[i];
        proof {
            let t = v@.take(i + 1);
            assert(t.drop_last() =~= v@.take(i as int));
            assert(t.last() == c);
        }
        let meta = c == '\\' || c == '.' || c == '+' || c == '*' || c == '?' || c == '(' || c == ')'
            || c == '|' || c == '[' || c == ']' || c == '{' || c == '}' || c == '^' || c == '$'
            || c == '#' || c == '&' || c == '-' || c == '~';
        if meta {
            push_char(&mut r, '\\');
        }
        push_char(&mut r, c);
        i = i + 1;
        assert(r@ =~= regex_escape_spec(v@.take(i as int)));
    }
    assert(v@.take(v@.len() as int) =~= v@);
    r
}

/// `regex::Regex::new`.
#[verifier::external_body]
fn regex_new(pattern: &str) -> (res: Option<regex::Regex>)
    ensures
        res is Some <==> regex_compiles(pattern@),
{
    regex::Regex::new(pattern).ok()
}

/// A pattern together with what `Regex::new` made of it.
#[derive(Debug)]
pub struct CompiledRegex {
    pattern: String,
    regex: Option<regex::Regex>,
}

impl CompiledRegex {
    #[verifier::type_invariant]
    spec fn inv(&self) -> bool {
        (self.regex is Some) == regex_compiles(self.pattern@)
    }

    /// The pattern it was compiled from.
    pub closed spec fn pattern(&self) -> Seq<char> {
        self.pattern@
    }

    /// Whether `Regex::new` accepted the pattern.
    pub closed spec fn valid(&self) -> bool {
        self.regex is Some
    }

    /// Compiles `pattern`.
    pub fn new(pattern: &str) -> (r: Self)
        ensures
            r.pattern() == pattern@,
            r.valid() == regex_compiles(pattern@),
    {
        let regex = regex_new(pattern);
        CompiledRegex { pattern: owned(pattern), regex }
    }

    /// Whether `Regex::new` accepted the pattern.
    pub fn is_valid(&self) -> (b: bool)
        ensures
            b == self.valid(),
    {
        self.regex.is_some()
    }
}

/// `Regex::captures`, then the text of group 1.
#[verifier::external_body]
pub(crate) fn regex_capture_group1(re: &CompiledRegex, haystack: &str) -> (res: Option<String>)
    requires
        re.valid(),
    ensures
        match res {
            Some(g) => regex_first_group(re.pattern(), haystack@) == Some(g@),
            None => regex_first_group(re.pattern(), haystack@) is None,
        },
{
    re.regex.as_ref().and_then(|r| r.captures(haystack)).and_then(|c| c.get(1)).map(|m| m.as_str().to_string())
}

/// `Regex::find_iter`: the text of each match, in order.
#[verifier::external_body]
pub(crate) fn regex_find_all(re: &CompiledRegex, haystack: &str) -> (res: Vec<String>)
    requires
        re.valid(),
    ensures
        res@.map_values(|m: String| m@) == regex_matches_all(re.pattern(), haystack@),
{
    re.regex.as_ref().map(|r| r.find_iter(haystack).map(|m| m.as_str().to_string()).collect()).unwrap_or_default()
}

/// `Regex::split`: the texts between the matches, in order.
#[verifier::external_body]
pub(crate) fn regex_split(re: &CompiledRegex, haystack: &str) -> (res: Vec<String>)
    requires
        re.valid(),
    ensures
        res@.map_values(|m: String| m@) == regex_split_all(re.pattern(), haystack@),
{
    re.regex.as_ref().map(|r| r.split(haystack).map(|m| m.to_string()).collect()).unwrap_or_default()
}

} // verus!
