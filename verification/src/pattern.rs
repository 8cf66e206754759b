//! The pattern engine that finds header and assignment lines: an outside engine,
//! reached through `compile` and `find_text`. What a pattern matches is known here
//! only by name. What is handed to the engine is made here: `escape` writes a name so
//! that the engine takes it literally.

use vstd::prelude::*;
use crate::text::{chars_of, option_text};

verus! {

/// `regex::Regex`, a compiled pattern. Nothing is known of what it holds but the
/// pattern it was made from.
#[verifier::external_type_specification]
#[verifier::external_body]
pub struct ExRegex(regex::Regex);

/// The pattern text that a compiled expression was made from.
pub uninterp spec fn regex_pattern(re: regex::Regex) -> Seq<char>;

/// Whether the engine accepts `pattern`: whether it is a pattern of the engine's
/// syntax whose compiled form stays within the engine's own size limit. Nothing here
/// says of any pattern that it is accepted.
pub uninterp spec fn regex_compiles(pattern: Seq<char>) -> bool;

/// The text of the first match of `pattern` in `haystack`, if it matches at all.
pub uninterp spec fn regex_find(pattern: Seq<char>, haystack: Seq<char>) -> Option<Seq<char>>;

/// The characters that have a meaning of their own in a pattern.
pub open spec fn is_meta_character(c: char) -> bool {
    c == '\\' || c == '.' || c == '+' || c == '*' || c == '?' || c == '(' || c == ')' || c == '|'
        || c == '[' || c == ']' || c == '{' || c == '}' || c == '^' || c == '$' || c == '#'
        || c == '&' || c == '-' || c == '~'
}

/// `text` with a backslash put before each meta character.
pub open spec fn escaped(text: Seq<char>) -> Seq<char>
    decreases text.len(),
{
    if text.len() == 0 {
        Seq::empty()
    } else if is_meta_character(text.last()) {
        escaped(text.drop_last()).push('\\').push(text.last())
    } else {
        escaped(text.drop_last()).push(text.last())
    }
}

/// `regex::Regex::new`. The result is `Some` exactly for the patterns that the engine
/// accepts, and the compiled expression is the one made from `pattern`.
#[verifier::external_body]
pub(crate) fn compile(pattern: &str) -> (r: Option<regex::Regex>)
    ensures
        r is Some <==> regex_compiles(pattern@),
        r matches Some(re) ==> regex_pattern(re) == pattern@,
{
    regex::Regex::new(pattern).ok()
}

/// `regex::Regex::find`, handing out the text of the match: the text of the first
/// match of the expression's pattern in `haystack`, or `None` where it matches nowhere.
#[verifier::external_body]
pub(crate) fn find_text(re: &regex::Regex, haystack: &str) -> (r: Option<String>)
    ensures
        option_text(r) == regex_find(regex_pattern(*re), haystack@),
{
    re.find(haystack).map(|m| m.as_str().to_string())
}

/// Whether `c` has a meaning of its own in a pattern.
fn is_meta(c: char) -> (meta: bool)
    ensures
        meta == is_meta_character(c),
{
    c == '\\' || c == '.' || c == '+' || c == '*' || c == '?' || c == '(' || c == ')' || c == '|'
        || c == '[' || c == ']' || c == '{' || c == '}' || c == '^' || c == '$' || c == '#'
        || c == '&' || c == '-' || c == '~'
}

/// `text` with a backslash before every meta character, so that a pattern made of it
/// matches the text itself and nothing else.
pub fn escape(text: &str) -> (r: String)
    ensures
        r@ == escaped(text@),
{
    let chars = chars_of(text);
    let mut out = String::new();
    let mut i: usize = 0;
    proof {
        assert(chars@.take(0) =~= Seq::<char>::empty());
    }
    while i < chars.len()
        invariant
            i <= chars.len(),
            chars@ == text@,
            out@ == escaped(chars@.take(i as int)),
        decreases chars.len() - i,
    {
        let c: char = chars[i];
        proof {
            let next = chars@.take(i + 1);
            assert(next.drop_last() =~= chars@.take(i as int));
            assert(next.last() == c);
        }
        if is_meta(c) {
            out.push('\\');
        }
        out.push(c);
        i += 1;
    }
    proof {
        assert(chars@.take(i as int) =~= chars@);
    }
    out
}

} // verus!
