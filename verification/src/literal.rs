//! The written forms of strings and floats: what stands between the quotes of a
//! string so that it reads back as the same text, and what makes the text of a float
//! a float literal.

use vstd::prelude::*;
use vstd::string::StringExecFns;
use crate::text::{chars_of, contains_char, same_text};

verus! {

/// The hexadecimal digit for `d`.
pub open spec fn hex_digit(d: nat) -> char {
    if d == 0 {
        '0'
    } else if d == 1 {
        '1'
    } else if d == 2 {
        '2'
    } else if d == 3 {
        '3'
    } else if d == 4 {
        '4'
    } else if d == 5 {
        '5'
    } else if d == 6 {
        '6'
    } else if d == 7 {
        '7'
    } else if d == 8 {
        '8'
    } else if d == 9 {
        '9'
    } else if d == 10 {
        'A'
    } else if d == 11 {
        'B'
    } else if d == 12 {
        'C'
    } else if d == 13 {
        'D'
    } else if d == 14 {
        'E'
    } else {
        'F'
    }
}

/// The hexadecimal digit for `d`.
fn hex_digit_char(d: u32) -> (c: char)
    requires
        d < 16,
    ensures
        c == hex_digit(d as nat),
{
    if d == 0 {
        '0'
    } else if d == 1 {
        '1'
    } else if d == 2 {
        '2'
    } else if d == 3 {
        '3'
    } else if d == 4 {
        '4'
    } else if d == 5 {
        '5'
    } else if d == 6 {
        '6'
    } else if d == 7 {
        '7'
    } else if d == 8 {
        '8'
    } else if d == 9 {
        '9'
    } else if d == 10 {
        'A'
    } else if d == 11 {
        'B'
    } else if d == 12 {
        'C'
    } else if d == 13 {
        'D'
    } else if d == 14 {
        'E'
    } else {
        'F'
    }
}

/// A control character: one that may not stand as it is inside a quoted string.
pub open spec fn is_control(c: char) -> bool {
    (c as u32) < 0x20 || c as u32 == 0x7F
}

/// What stands for the character `c` inside a quoted string. A double quote and a
/// backslash get a backslash before them; a control character is written by its
/// escape, the short one where it has one, else `\u00` and its two hexadecimal
/// digits; any other character stands for itself.
pub open spec fn escaped_char(c: char) -> Seq<char> {
    if c == '"' {
        seq!['\\', '"']
    } else if c == '\\' {
        seq!['\\', '\\']
    } else if c == '\u{8}' {
        seq!['\\', 'b']
    } else if c == '\t' {
        seq!['\\', 't']
    } else if c == '\n' {
        seq!['\\', 'n']
    } else if c == '\u{c}' {
        seq!['\\', 'f']
    } else if c == '\r' {
        seq!['\\', 'r']
    } else if is_control(c) {
        seq![
            '\\',
            'u',
            '0',
            '0',
            hex_digit((c as u32 / 16) as nat),
            hex_digit((c as u32 % 16) as nat),
        ]
    } else {
        seq![c]
    }
}

/// The number of double quotes that stand directly before the character at `index`.
pub open spec fn quotes_before(text: Seq<char>, index: int) -> nat
    decreases index,
{
    if index <= 0 || index > text.len() || text[index - 1] != '"' {
        0
    } else {
        1 + quotes_before(text, index - 1)
    }
}

/// Whether the character at `index` of `text` stands as it is between the quotes: it
/// does wherever it reads back as itself there. A backslash never does. A double
/// quote does so only between triple quotes, and there every third of a run of them
/// does not, so that no three stand in a row. A tab always does; a line feed does
/// between triple quotes; no other control character does.
pub open spec fn stands_as_it_is(text: Seq<char>, index: int, multi_line: bool) -> bool {
    let c = text[index];
    if c == '\\' {
        false
    } else if c == '"' {
        multi_line && quotes_before(text, index) % 3 != 2
    } else if c == '\t' {
        true
    } else if c == '\n' {
        multi_line
    } else {
        !is_control(c)
    }
}

/// What stands for the character at `index` of `text` between the quotes: the
/// character itself, or its escape.
pub open spec fn written_at(text: Seq<char>, index: int, multi_line: bool) -> Seq<char> {
    if stands_as_it_is(text, index, multi_line) {
        seq![text[index]]
    } else {
        escaped_char(text[index])
    }
}

/// What stands for the characters of `text` from `from` up to `to`, in order.
pub open spec fn written_range(text: Seq<char>, from: int, to: int, multi_line: bool) -> Seq<
    char,
>
    decreases to - from,
{
    if to <= from {
        Seq::empty()
    } else {
        written_range(text, from, to - 1, multi_line) + written_at(text, to - 1, multi_line)
    }
}

/// What stands for `text` between the quotes of a string: between one double quote
/// on each side, or, where `multi_line` holds, between three.
pub open spec fn escaped_text(text: Seq<char>, multi_line: bool) -> Seq<char> {
    written_range(text, 0, text.len() as int, multi_line)
}

/// What opens a string of several lines: three double quotes, and after them a line
/// feed where the text itself begins with one, since a line feed directly after the
/// quotes is not read as part of the text.
pub open spec fn opening_quotes(text: Seq<char>) -> Seq<char> {
    if text.len() > 0 && text[0] == '\n' {
        "\"\"\"\n"@
    } else {
        "\"\"\""@
    }
}

/// The written form of a string. A text without a line feed stands between one
/// double quote on each side. A text with a line feed stands between three double
/// quotes on each side, its line feeds as they are. Either way a character stands as
/// it is wherever it reads back as itself, and by its escape elsewhere.
pub open spec fn render_string(text: Seq<char>) -> Seq<char> {
    if text.contains('\n') {
        opening_quotes(text) + escaped_text(text, true) + "\"\"\""@
    } else {
        "\""@ + escaped_text(text, false) + "\""@
    }
}

/// The written form of a text between one double quote on each side, whatever it
/// holds.
pub open spec fn render_quoted(text: Seq<char>) -> Seq<char> {
    "\""@ + escaped_text(text, false) + "\""@
}

/// A sign or a decimal digit.
pub open spec fn is_sign_or_digit(c: char) -> bool {
    c == '-' || c == '+' || ('0' as u32 <= c as u32 && c as u32 <= '9' as u32)
}

/// A text that holds nothing but signs and digits, and at least one of them: the
/// text of a whole number.
pub open spec fn is_whole(text: Seq<char>) -> bool {
    text.len() > 0 && forall|i: int| 0 <= i < text.len() ==> is_sign_or_digit(#[trigger] text[i])
}

/// The float literal for the text of a float. The text of a whole number gets `.0`
/// after it, so that it is read as a float; `NaN` is written `nan`; any other text,
/// which holds a fraction or names an infinity, is a literal already.
pub open spec fn float_literal(text: Seq<char>) -> Seq<char> {
    if text == "NaN"@ {
        "nan"@
    } else if is_whole(text) {
        text + ".0"@
    } else {
        text
    }
}

/// The character that the letter `c` stands for after a backslash, where it is the
/// letter of a short escape.
pub open spec fn escape_letter(c: char) -> Option<char> {
    if c == '"' {
        Some('"')
    } else if c == '\\' {
        Some('\\')
    } else if c == 'b' {
        Some('\u{8}')
    } else if c == 't' {
        Some('\t')
    } else if c == 'n' {
        Some('\n')
    } else if c == 'f' {
        Some('\u{c}')
    } else if c == 'r' {
        Some('\r')
    } else {
        None
    }
}

/// The number that the hexadecimal digit `c` stands for; 16 where `c` is no such digit.
pub open spec fn hex_value(c: char) -> nat {
    if c == '0' {
        0
    } else if c == '1' {
        1
    } else if c == '2' {
        2
    } else if c == '3' {
        3
    } else if c == '4' {
        4
    } else if c == '5' {
        5
    } else if c == '6' {
        6
    } else if c == '7' {
        7
    } else if c == '8' {
        8
    } else if c == '9' {
        9
    } else if c == 'A' {
        10
    } else if c == 'B' {
        11
    } else if c == 'C' {
        12
    } else if c == 'D' {
        13
    } else if c == 'E' {
        14
    } else if c == 'F' {
        15
    } else {
        16
    }
}

/// Whether `written` begins with an escape of four hexadecimal digits, of which the
/// first two are zeros.
pub open spec fn begins_with_code(written: Seq<char>) -> bool {
    &&& written.len() >= 6
    &&& written[0] == '\\'
    &&& written[1] == 'u'
    &&& written[2] == '0'
    &&& written[3] == '0'
    &&& hex_value(written[4]) < 16
    &&& hex_value(written[5]) < 16
}

/// The text that `written` stands for between the quotes of a string, by the escapes
/// of the format: a backslash and a letter stand for the character of that short
/// escape, `\u00` and two hexadecimal digits for the character of that number, any
/// other character for itself. `None` where `written` holds a backslash that belongs
/// to no escape.
pub open spec fn unescaped_text(written: Seq<char>) -> Option<Seq<char>>
    decreases written.len(),
{
    if written.len() == 0 {
        Some(Seq::empty())
    } else if written[0] != '\\' {
        match unescaped_text(written.skip(1)) {
            Some(rest) => Some(seq![written[0]] + rest),
            None => None,
        }
    } else if written.len() >= 2 && escape_letter(written[1]) is Some {
        match unescaped_text(written.skip(2)) {
            Some(rest) => Some(seq![escape_letter(written[1])->0] + rest),
            None => None,
        }
    } else if begins_with_code(written) {
        match unescaped_text(written.skip(6)) {
            Some(rest) => Some(
                seq![((hex_value(written[4]) * 16 + hex_value(written[5])) as u32) as char] + rest,
            ),
            None => None,
        }
    } else {
        None
    }
}

/// What stands for a range of characters begins with what stands for the first of
/// them.
pub proof fn lemma_written_range_front(text: Seq<char>, from: int, to: int, multi_line: bool)
    requires
        from < to,
    ensures
        written_range(text, from, to, multi_line) == written_at(text, from, multi_line)
            + written_range(text, from + 1, to, multi_line),
    decreases to - from,
{
    if to == from + 1 {
        assert(written_range(text, from, from, multi_line) =~= Seq::<char>::empty());
        assert(written_range(text, from + 1, to, multi_line) =~= Seq::<char>::empty());
        assert(written_range(text, from, to, multi_line) =~= written_at(text, from, multi_line)
            + written_range(text, from + 1, to, multi_line));
    } else {
        lemma_written_range_front(text, from, to - 1, multi_line);
        assert(written_range(text, from, to, multi_line) =~= written_at(text, from, multi_line)
            + written_range(text, from + 1, to, multi_line));
    }
}

/// The two hexadecimal digits of a control character stand for its number.
proof fn lemma_code_of_control(c: char)
    requires
        is_control(c),
    ensures
        hex_value(hex_digit((c as u32 / 16) as nat)) == (c as u32 / 16) as nat,
        hex_value(hex_digit((c as u32 % 16) as nat)) == (c as u32 % 16) as nat,
        (c as u32 / 16) < 16,
        ((((c as u32 / 16) as nat) * 16 + ((c as u32 % 16) as nat)) as u32) as char == c,
{
    let n = c as u32;
    assert(n < 0x80);
    assert((n / 16) * 16 + n % 16 == n);
}

/// A character that stands as it is, or by its escape, is read as that character.
pub proof fn lemma_unescaped_front(c: char, head: Seq<char>, rest: Seq<char>)
    requires
        (head == seq![c] && c != '\\') || head == escaped_char(c),
    ensures
        unescaped_text(head + rest) == match unescaped_text(rest) {
            Some(text) => Some(seq![c] + text),
            None => None::<Seq<char>>,
        },
{
    let written = head + rest;
    if head.len() == 1 {
        assert(head[0] == c);
        assert(written[0] == c);
        assert(c != '\\');
        assert(written.skip(1) =~= rest);
    } else if head.len() == 2 {
        assert(written[0] == '\\');
        assert(written[1] == head[1]);
        assert(escape_letter(written[1]) == Some(c));
        assert(written.skip(2) =~= rest);
    } else {
        lemma_code_of_control(c);
        assert(head.len() == 6);
        assert(written[0] == '\\' && written[1] == 'u' && written[2] == '0' && written[3] == '0');
        assert(written[4] == hex_digit((c as u32 / 16) as nat));
        assert(written[5] == hex_digit((c as u32 % 16) as nat));
        assert(escape_letter('u') is None);
        assert(begins_with_code(written));
        assert(written.skip(6) =~= rest);
    }
}

/// What stands for the characters of `text` from `from` on is read as those
/// characters.
pub proof fn lemma_unescaped_range(text: Seq<char>, from: int, multi_line: bool)
    requires
        0 <= from <= text.len(),
    ensures
        unescaped_text(written_range(text, from, text.len() as int, multi_line)) == Some(
            text.skip(from),
        ),
    decreases text.len() - from,
{
    if from == text.len() {
        assert(text.skip(from) =~= Seq::<char>::empty());
        assert(written_range(text, from, text.len() as int, multi_line) =~= Seq::<char>::empty());
    } else {
        lemma_unescaped_range(text, from + 1, multi_line);
        lemma_written_range_front(text, from, text.len() as int, multi_line);
        lemma_unescaped_front(
            text[from],
            written_at(text, from, multi_line),
            written_range(text, from + 1, text.len() as int, multi_line),
        );
        assert(text.skip(from) =~= seq![text[from]] + text.skip(from + 1));
    }
}

/// The text between the quotes of a written string stands, by the escapes of the
/// format, for the string that was written: nothing of it is lost or changed.
pub proof fn lemma_unescaped_escaped(text: Seq<char>, multi_line: bool)
    ensures
        unescaped_text(escaped_text(text, multi_line)) == Some(text),
{
    lemma_unescaped_range(text, 0, multi_line);
    assert(text.skip(0) =~= text);
}

/// Between triple quotes no three double quotes stand in a row as they are: of any
/// three that follow one another in the text, one is written by its escape.
pub proof fn lemma_no_three_quotes(text: Seq<char>, index: int)
    requires
        0 <= index,
        index + 2 < text.len(),
        text[index] == '"',
        text[index + 1] == '"',
        text[index + 2] == '"',
    ensures
        !stands_as_it_is(text, index, true) || !stands_as_it_is(text, index + 1, true)
            || !stands_as_it_is(text, index + 2, true),
{
    assert(quotes_before(text, index + 1) == quotes_before(text, index) + 1);
    assert(quotes_before(text, index + 2) == quotes_before(text, index + 1) + 1);
}

/// A float is never written as a whole number: its literal holds more than signs and
/// digits.
pub proof fn lemma_float_literal_is_no_whole_number(text: Seq<char>)
    ensures
        !is_whole(float_literal(text)),
{
    reveal_strlit("NaN");
    reveal_strlit("nan");
    reveal_strlit(".0");
    let literal = float_literal(text);
    if text == "NaN"@ {
        assert(!is_sign_or_digit(literal[0]));
    } else if is_whole(text) {
        assert(literal[text.len() as int] == '.');
        assert(!is_sign_or_digit(literal[text.len() as int]));
    }
}

/// Appends to `out` the escape of `c`.
fn push_escaped_char(out: &mut String, c: char)
    ensures
        final(out)@ == old(out)@ + escaped_char(c),
{
    let code: u32 = c as u32;
    if c == '"' {
        out.push('\\');
        out.push('"');
    } else if c == '\\' {
        out.push('\\');
        out.push('\\');
    } else if c == '\u{8}' {
        out.push('\\');
        out.push('b');
    } else if c == '\t' {
        out.push('\\');
        out.push('t');
    } else if c == '\n' {
        out.push('\\');
        out.push('n');
    } else if c == '\u{c}' {
        out.push('\\');
        out.push('f');
    } else if c == '\r' {
        out.push('\\');
        out.push('r');
    } else if code < 0x20 || code == 0x7F {
        out.push('\\');
        out.push('u');
        out.push('0');
        out.push('0');
        out.push(hex_digit_char(code / 16));
        out.push(hex_digit_char(code % 16));
    } else {
        out.push(c);
    }
    proof {
        assert(final(out)@ =~= old(out)@ + escaped_char(c));
    }
}

/// Appends to `out` what stands for `text` between the quotes of a string.
pub fn push_escaped_text(out: &mut String, text: &str, multi_line: bool)
    ensures
        final(out)@ == old(out)@ + escaped_text(text@, multi_line),
{
    let chars = chars_of(text);
    let mut i: usize = 0;
    let mut run: usize = 0;
    proof {
        assert(out@ =~= old(out)@ + written_range(chars@, 0, 0, multi_line));
    }
    while i < chars.len()
        invariant
            i <= chars.len(),
            chars@ == text@,
            run <= i,
            run == quotes_before(chars@, i as int),
            out@ == old(out)@ + written_range(chars@, 0, i as int, multi_line),
        decreases chars.len() - i,
    {
        let c: char = chars[i];
        let code: u32 = c as u32;
        let ghost before = out@;
        let as_it_is = if c == '\\' {
            false
        } else if c == '"' {
            multi_line && run % 3 != 2
        } else if c == '\t' {
            true
        } else if c == '\n' {
            multi_line
        } else {
            !(code < 0x20 || code == 0x7F)
        };
        assert(as_it_is == stands_as_it_is(chars@, i as int, multi_line));
        if as_it_is {
            out.push(c);
        } else {
            push_escaped_char(out, c);
        }
        proof {
            assert(out@ =~= before + written_at(chars@, i as int, multi_line));
            assert(out@ =~= old(out)@ + written_range(chars@, 0, i + 1, multi_line));
        }
        if c == '"' {
            run += 1;
        } else {
            run = 0;
        }
        i += 1;
    }
}

/// The written form of the string `text`.
pub fn string_literal(text: &str) -> (literal: String)
    ensures
        literal@ == render_string(text@),
{
    if contains_char(text, '\n') {
        let mut literal = if begins_with_line_feed(text) {
            "\"\"\"\n".to_owned()
        } else {
            "\"\"\"".to_owned()
        };
        push_escaped_text(&mut literal, text, true);
        literal.append("\"\"\"");
        literal
    } else {
        quoted_literal(text)
    }
}

/// Whether `text` begins with a line feed.
fn begins_with_line_feed(text: &str) -> (begins: bool)
    ensures
        begins == (text@.len() > 0 && text@[0] == '\n'),
{
    let chars = chars_of(text);
    chars.len() > 0 && chars[0] == '\n'
}

/// The written form of `text` between one double quote on each side.
pub fn quoted_literal(text: &str) -> (literal: String)
    ensures
        literal@ == render_quoted(text@),
{
    let mut literal = "\"".to_owned();
    push_escaped_text(&mut literal, text, false);
    literal.append("\"");
    literal
}

/// Whether `text` is the text of a whole number.
pub fn is_whole_text(text: &str) -> (whole: bool)
    ensures
        whole == is_whole(text@),
{
    let chars = chars_of(text);
    if chars.len() == 0 {
        return false;
    }
    let mut i: usize = 0;
    while i < chars.len()
        invariant
            i <= chars.len(),
            chars@ == text@,
            forall|j: int| 0 <= j < i ==> is_sign_or_digit(#[trigger] chars@[j]),
        decreases chars.len() - i,
    {
        let c: char = chars[i];
        let code: u32 = c as u32;
        if !(c == '-' || c == '+' || ('0' as u32 <= code && code <= '9' as u32)) {
            proof {
                assert(!is_sign_or_digit(text@[i as int]));
            }
            return false;
        }
        i += 1;
    }
    true
}

/// The float literal for the text of a float.
pub fn float_literal_of(text: &str) -> (literal: String)
    ensures
        literal@ == float_literal(text@),
{
    if same_text(text, "NaN") {
        "nan".to_owned()
    } else if is_whole_text(text) {
        let mut literal = text.to_owned();
        literal.append(".0");
        literal
    } else {
        text.to_owned()
    }
}

} // verus!
