//! Finds the comment that belongs to a section header or to a field assignment in
//! the raw text of a document.

use vstd::prelude::*;
use vstd::string::{StrSliceExecFns, StringExecFns};
use crate::manager::ConfigManager;
use crate::pattern::{compile, escape, escaped, find_text, regex_compiles, regex_find, regex_pattern};
use crate::text::{
    chars_of, find_char, lemma_position, lemma_position_is, lines, option_text, position,
    split_lines, string_of, texts, trim, trim_range,
};

verus! {

/// The pattern of the line that assigns to the field `name`: the name, literally,
/// after optional white space and before optional white space and `=`.
pub open spec fn field_pattern(name: Seq<char>) -> Seq<char> {
    r"^\s*"@ + escaped(name) + r"\s*="@
}

/// The pattern of a header of the section `name`: an opening bracket, the name,
/// literally, and whatever follows up to a closing bracket.
pub open spec fn section_pattern(name: Seq<char>) -> Seq<char> {
    r"\["@ + escaped(name) + r"[^\]]*\]"@
}

/// For each line, whether `pattern` matches in it.
pub open spec fn match_flags(pattern: Seq<char>, lines: Seq<Seq<char>>) -> Seq<bool> {
    Seq::new(lines.len(), |i: int| regex_find(pattern, lines[i]) is Some)
}

/// The index of the first line in which `pattern` matches, or `lines.len()`.
pub open spec fn first_match(pattern: Seq<char>, lines: Seq<Seq<char>>) -> int {
    position(match_flags(pattern, lines), true)
}

/// The comment that a line holds if the line is nothing but a comment: the text
/// after the marker, without white space around it.
pub open spec fn comment_line(line: Seq<char>) -> Option<Seq<char>> {
    let trimmed = trim(line);
    if trimmed.len() > 0 && trimmed[0] == '#' {
        Some(trim(trimmed.skip(1)))
    } else {
        None
    }
}

/// The comment that follows the first marker at or after `from` on `line`, without
/// white space around it, unless it is empty.
pub open spec fn inline_comment(line: Seq<char>, from: int) -> Option<Seq<char>> {
    let rest = line.skip(from);
    let marker = position(rest, '#');
    if marker < rest.len() && trim(rest.skip(marker + 1)).len() > 0 {
        Some(trim(rest.skip(marker + 1)))
    } else {
        None
    }
}

/// The comment of the line before `index`, if that line is a comment.
pub open spec fn comment_before(lines: Seq<Seq<char>>, index: int) -> Option<Seq<char>> {
    if 0 < index < lines.len() {
        comment_line(lines[index - 1])
    } else {
        None
    }
}

/// The comment of the assignment on line `index` whose name and `=` take up the first
/// `matched` characters: the comment on the same line, or else that of the line before.
pub open spec fn comment_of_assignment(lines: Seq<Seq<char>>, index: int, matched: int) -> Option<
    Seq<char>,
> {
    if 0 <= index < lines.len() && 0 <= matched <= lines[index].len() {
        match inline_comment(lines[index], matched) {
            Some(comment) => Some(comment),
            None => comment_before(lines, index),
        }
    } else {
        None
    }
}

/// The comment of the field `name` in `content`: that of the first line that
/// assigns to the name, in whatever section.
pub open spec fn field_comment(content: Seq<char>, name: Seq<char>) -> Option<Seq<char>> {
    let pattern = field_pattern(name);
    let index = first_match(pattern, lines(content));
    if regex_compiles(pattern) && index < lines(content).len() {
        comment_of_assignment(
            lines(content),
            index,
            regex_find(pattern, lines(content)[index])->0.len() as int,
        )
    } else {
        None
    }
}

/// The comment of the section `name` in `content`: that of the line before the
/// first line that holds a header of the section.
pub open spec fn section_comment(content: Seq<char>, name: Seq<char>) -> Option<Seq<char>> {
    let pattern = section_pattern(name);
    if regex_compiles(pattern) {
        comment_before(lines(content), first_match(pattern, lines(content)))
    } else {
        None
    }
}

/// A comment on the line of the assignment wins over one on the line before.
pub proof fn lemma_inline_comment_wins(lines: Seq<Seq<char>>, index: int, matched: int)
    requires
        0 <= index < lines.len(),
        0 <= matched <= lines[index].len(),
        inline_comment(lines[index], matched) is Some,
    ensures
        comment_of_assignment(lines, index, matched) == inline_comment(lines[index], matched),
{
}

/// The line before decides only where the line of the assignment holds no comment,
/// and the very first line has no line before it.
pub proof fn lemma_comment_before_assignment(lines: Seq<Seq<char>>, index: int, matched: int)
    requires
        0 <= index < lines.len(),
        0 <= matched <= lines[index].len(),
        inline_comment(lines[index], matched) is None,
    ensures
        index > 0 ==> comment_of_assignment(lines, index, matched) == comment_line(
            lines[index - 1],
        ),
        index == 0 ==> comment_of_assignment(lines, index, matched) is None,
{
}

/// The comment that `line` holds if it is nothing but a comment.
pub fn comment_on_line(line: &Vec<char>) -> (comment: Option<String>)
    ensures
        option_text(comment) == comment_line(line@),
{
    let trimmed = trim_range(line, 0, line.len());
    proof {
        assert(line@.subrange(0, line.len() as int) =~= line@);
    }
    if trimmed.len() > 0 && trimmed[0] == '#' {
        let text = trim_range(&trimmed, 1, trimmed.len());
        proof {
            assert(trimmed@.subrange(1, trimmed.len() as int) =~= trimmed@.skip(1));
        }
        Some(string_of(&text))
    } else {
        None
    }
}

/// The comment of the line before `index`, if that line is a comment.
pub fn comment_before_line(lines: &Vec<Vec<char>>, index: usize) -> (comment: Option<String>)
    ensures
        option_text(comment) == comment_before(texts(lines@), index as int),
{
    if 0 < index && index < lines.len() {
        comment_on_line(&lines[index - 1])
    } else {
        None
    }
}

/// The comment of the assignment on line `index` whose name and `=` take up the first
/// `matched` characters of the line.
pub fn comment_for_assignment(lines: &Vec<Vec<char>>, index: usize, matched: usize) -> (comment:
    Option<String>)
    ensures
        option_text(comment) == comment_of_assignment(
            texts(lines@),
            index as int,
            matched as int,
        ),
{
    if index >= lines.len() {
        return None;
    }
    let line = &lines[index];
    if matched > line.len() {
        return None;
    }
    let marker: usize = find_char(line, matched, '#');
    proof {
        lemma_position(line@.skip(matched as int), '#');
    }
    if marker < line.len() {
        let text = trim_range(line, marker + 1, line.len());
        proof {
            let rest = line@.skip(matched as int);
            assert(rest.skip(marker - matched + 1) =~= line@.subrange(
                marker + 1,
                line.len() as int,
            ));
        }
        if text.len() > 0 {
            return Some(string_of(&text));
        }
    }
    comment_before_line(lines, index)
}

/// The index of the first of `rows` in which the pattern of `re` matches, with the
/// number of characters of the match; `None` where it matches in none.
fn find_first_match(re: &regex::Regex, rows: &Vec<Vec<char>>) -> (found: Option<(usize, usize)>)
    ensures
        match found {
            Some((index, matched)) => {
                &&& index < rows.len()
                &&& index == first_match(regex_pattern(*re), texts(rows@))
                &&& regex_find(regex_pattern(*re), texts(rows@)[index as int]) is Some
                &&& matched == regex_find(
                    regex_pattern(*re),
                    texts(rows@)[index as int],
                )->0.len()
            },
            None => first_match(regex_pattern(*re), texts(rows@)) == rows.len(),
        },
{
    let ghost flags = match_flags(regex_pattern(*re), texts(rows@));
    let mut index: usize = 0;
    while index < rows.len()
        invariant
            index <= rows.len(),
            flags == match_flags(regex_pattern(*re), texts(rows@)),
            forall|j: int| 0 <= j < index ==> flags[j] != true,
        decreases rows.len() - index,
    {
        let line = string_of(&rows[index]);
        match find_text(re, line.as_str()) {
            Some(found) => {
                let matched: usize = found.as_str().unicode_len();
                proof {
                    lemma_position_is(flags, true, index as int);
                }
                return Some((index, matched));
            },
            None => {},
        }
        index += 1;
    }
    proof {
        lemma_position_is(flags, true, index as int);
    }
    None
}

impl ConfigManager {
    /// The comment of the field `field_name` in `content`. The section plays no part:
    /// the first line of the whole text that assigns to the name decides. Its comment
    /// is the one on the same line after the assignment, or else that of the line
    /// before, if that line is nothing but a comment.
    pub fn extract_field_comment(
        &self,
        content: &str,
        _section_name: &str,
        field_name: &str,
    ) -> (comment: Option<String>)
        ensures
            option_text(comment) == field_comment(content@, field_name@),
    {
        let mut pattern = r"^\s*".to_owned();
        pattern.append(escape(field_name).as_str());
        pattern.append(r"\s*=");
        match compile(pattern.as_str()) {
            Some(re) => {
                let rows = split_lines(&chars_of(content));
                match find_first_match(&re, &rows) {
                    Some((index, matched)) => comment_for_assignment(&rows, index, matched),
                    None => None,
                }
            },
            None => None,
        }
    }

    /// The comment of the section `section_name` in `content`: that of the line
    /// directly before the first line that holds a header of the section, if that line
    /// is nothing but a comment.
    pub fn extract_section_comment(&self, content: &str, section_name: &str) -> (comment: Option<
        String,
    >)
        ensures
            option_text(comment) == section_comment(content@, section_name@),
    {
        let mut pattern = r"\[".to_owned();
        pattern.append(escape(section_name).as_str());
        pattern.append(r"[^\]]*\]");
        match compile(pattern.as_str()) {
            Some(re) => {
                let rows = split_lines(&chars_of(content));
                match find_first_match(&re, &rows) {
                    Some((index, _)) => comment_before_line(&rows, index),
                    None => None,
                }
            },
            None => None,
        }
    }
}

} // verus!
