//! How the TOML that is written reads.
//!
//! A role file is a list of `key = string` lines with comments and blank lines
//! between them. What reads such a file is stated here, string literals first, so
//! that it can be said of a written file what it holds.

use vstd::prelude::*;
use crate::text::occurs_at;
use super::id_char;

verus! {

/// A character that stands for itself in a string. Control characters do not, but
/// for the tab, and for line ends where the string may have several lines.
pub open spec fn stands_for_itself(c: char, lines: bool) -> bool {
    (' ' <= c && c != '\u{7f}') || c == '\t' || (lines && c == '\n')
}

/// The value of a hexadecimal digit.
pub open spec fn hex_digit(c: char) -> Option<int> {
    if '0' <= c <= '9' {
        Some(c as int - '0' as int)
    } else if 'A' <= c <= 'F' {
        Some(c as int - 'A' as int + 10)
    } else if 'a' <= c <= 'f' {
        Some(c as int - 'a' as int + 10)
    } else {
        None
    }
}

/// The number that four hexadecimal digits behind `\u` make.
pub open spec fn code_point(text: Seq<char>) -> Option<int> {
    if text.len() < 6 {
        None
    } else {
        match (
            hex_digit(text[2]),
            hex_digit(text[3]),
            hex_digit(text[4]),
            hex_digit(text[5]),
        ) {
            (Some(a), Some(b), Some(c), Some(d)) => Some(4096 * a + 256 * b + 16 * c + d),
            _ => None,
        }
    }
}

/// The character that an escape at the start of the text stands for, and how many
/// characters the escape takes. Longer escapes, and a line that is continued by a
/// backslash, are not read here.
pub open spec fn unescaped(text: Seq<char>) -> Option<(char, int)> {
    if text.len() < 2 {
        None
    } else {
        match text[1] {
            'b' => Some(('\u{8}', 2)),
            't' => Some(('\t', 2)),
            'n' => Some(('\n', 2)),
            'f' => Some(('\u{c}', 2)),
            'r' => Some(('\r', 2)),
            '"' => Some(('"', 2)),
            '\\' => Some(('\\', 2)),
            'u' => match code_point(text) {
                Some(code) => if 0xd800 <= code <= 0xdfff {
                    None
                } else {
                    Some((code as char, 6))
                },
                None => None,
            },
            _ => None,
        }
    }
}

/// The text starts with `count` quotes.
pub open spec fn starts_with_quotes(text: Seq<char>, quote: char, count: int) -> bool {
    text.len() >= count && forall|i: int| 0 <= i < count ==> #[trigger] text[i] == quote
}

/// How many quotes a string ends with here: none where it goes on. One quote ends a
/// string on one line. Three end a string that may have several lines, and up to two
/// more before them belong to what it holds.
pub open spec fn ending(text: Seq<char>, quote: char, lines: bool) -> int {
    if !lines {
        if starts_with_quotes(text, quote, 1) {
            1
        } else {
            0
        }
    } else if starts_with_quotes(text, quote, 5) {
        5
    } else if starts_with_quotes(text, quote, 4) {
        4
    } else if starts_with_quotes(text, quote, 3) {
        3
    } else {
        0
    }
}

/// What a string holds from here on, and what follows it. In double quotes a
/// backslash starts an escape.
pub open spec fn read_rest(text: Seq<char>, quote: char, lines: bool) -> Option<
    (Seq<char>, Seq<char>),
>
    decreases text.len(),
{
    let end = ending(text, quote, lines);
    if text.len() == 0 {
        None
    } else if end > 0 {
        let held = if lines {
            end - 3
        } else {
            0
        };
        Some((text.take(held), text.skip(end)))
    } else if quote == '"' && text[0] == '\\' {
        match unescaped(text) {
            Some((c, taken)) => match read_rest(text.skip(taken), quote, lines) {
                Some((held, following)) => Some((seq![c] + held, following)),
                None => None,
            },
            None => None,
        }
    } else if stands_for_itself(text[0], lines) {
        match read_rest(text.skip(1), quote, lines) {
            Some((held, following)) => Some((seq![text[0]] + held, following)),
            None => None,
        }
    } else {
        None
    }
}

/// The text without a line end at its start.
pub open spec fn without_line_end(text: Seq<char>) -> Seq<char> {
    if text.len() > 0 && text[0] == '\n' {
        text.skip(1)
    } else {
        text
    }
}

/// What the string literal at the start of the text holds, and what follows it. Three
/// quotes start a string that may have several lines; a line end right behind them
/// does not count.
pub open spec fn read_string(text: Seq<char>) -> Option<(Seq<char>, Seq<char>)> {
    if text.len() == 0 || (text[0] != '"' && text[0] != '\'') {
        None
    } else if starts_with_quotes(text, text[0], 3) {
        read_rest(without_line_end(text.skip(3)), text[0], true)
    } else {
        read_rest(text.skip(1), text[0], false)
    }
}

/// The text ends, or its line does.
pub open spec fn ends_line(text: Seq<char>) -> bool {
    text.len() == 0 || text[0] == '\n'
}

/// The literal reads as `raw`, and ends where it ends, at the end of a line.
pub open spec fn reads_back(literal: Seq<char>, raw: Seq<char>) -> bool {
    forall|following: Seq<char>|
        ends_line(following) ==> #[trigger] read_string(literal + following) == Some(
            (raw, following),
        )
}

/// What follows a string is how the text ends, behind a quote.
proof fn lemma_read_rest(text: Seq<char>, quote: char, lines: bool)
    requires
        read_rest(text, quote, lines) is Some,
    ensures
        ({
            let following = (read_rest(text, quote, lines)->0).1;
            let at = text.len() - following.len();
            &&& following.len() < text.len()
            &&& following == text.skip(at)
            &&& text[at - 1] == quote
        }),
    decreases text.len(),
{
    let end = ending(text, quote, lines);
    if end > 0 {
        assert(text[end - 1] == quote);
    } else {
        let taken = if quote == '"' && text[0] == '\\' {
            (unescaped(text)->0).1
        } else {
            1
        };
        lemma_read_rest(text.skip(taken), quote, lines);
        let following = (read_rest(text, quote, lines)->0).1;
        assert(following =~= text.skip(text.len() - following.len()));
    }
}

/// A literal that reads as something starts and ends with a quote.
pub proof fn lemma_literal_is_quoted(literal: Seq<char>, raw: Seq<char>)
    requires
        reads_back(literal, raw),
    ensures
        literal.len() >= 2,
        literal[0] == '"' || literal[0] == '\'',
        literal.last() == literal[0],
{
    let nothing = Seq::<char>::empty();
    assert(read_string(literal + nothing) == Some((raw, nothing)));
    assert(literal + nothing =~= literal);
    if starts_with_quotes(literal, literal[0], 3) {
        let rest = without_line_end(literal.skip(3));
        lemma_read_rest(rest, literal[0], true);
        assert(rest.last() == literal.last());
    } else {
        let rest = literal.skip(1);
        lemma_read_rest(rest, literal[0], false);
        assert(rest.last() == literal.last());
    }
}

/// How far the first line goes, its end included.
pub open spec fn line_length(text: Seq<char>) -> int
    decreases text.len(),
{
    if text.len() == 0 {
        0
    } else if text[0] == '\n' {
        1
    } else {
        1 + line_length(text.skip(1))
    }
}

/// A line lies within its text.
pub proof fn lemma_line_is_within(text: Seq<char>)
    requires
        text.len() > 0,
    ensures
        0 < line_length(text) <= text.len(),
    decreases text.len(),
{
    reveal_with_fuel(line_length, 2);
    if text.len() > 1 {
        lemma_line_is_within(text.skip(1));
    }
}

/// How far the bare key at the start of the text goes.
pub open spec fn key_length(text: Seq<char>) -> int
    decreases text.len(),
{
    if text.len() == 0 || !id_char(text[0]) {
        0
    } else {
        1 + key_length(text.skip(1))
    }
}

/// A key that stands without quotes.
pub open spec fn bare_key(key: Seq<char>) -> bool {
    key.len() > 0 && forall|i: int| 0 <= i < key.len() ==> id_char(#[trigger] key[i])
}

/// The key is among the entries.
pub open spec fn has_key(entries: Seq<(Seq<char>, Seq<char>)>, key: Seq<char>) -> bool {
    exists|i: int| 0 <= i < entries.len() && (#[trigger] entries[i]).0 == key
}

/// The keys and strings of a document, in order: lines of a bare key, an equals sign
/// between spaces and a string, with comments and blank lines between them. No key
/// may stand twice, and anything else is not read.
#[verifier::opaque]
pub open spec fn read_document(text: Seq<char>) -> Option<Seq<(Seq<char>, Seq<char>)>>
    decreases text.len(),
{
    if text.len() == 0 {
        Some(Seq::empty())
    } else if text[0] == '\n' {
        read_document(text.skip(1))
    } else if text[0] == '#' {
        proof {
            lemma_line_is_within(text);
        }
        read_document(text.skip(line_length(text)))
    } else {
        let length = key_length(text);
        if length <= 0 || !occurs_at(text, " = "@, length) {
            None
        } else {
            match read_string(text.skip(length + 3)) {
                Some((value, following)) => if following.len() < text.len() && ends_line(
                    following,
                ) {
                    match read_document(following) {
                        Some(more) => if has_key(more, text.take(length)) {
                            None
                        } else {
                            Some(seq![(text.take(length), value)] + more)
                        },
                        None => None,
                    }
                } else {
                    None
                },
                None => None,
            }
        }
    }
}

proof fn lemma_key_length(key: Seq<char>, following: Seq<char>)
    requires
        forall|i: int| 0 <= i < key.len() ==> id_char(#[trigger] key[i]),
        following.len() > 0,
        !id_char(following[0]),
    ensures
        key_length(key + following) == key.len(),
    decreases key.len(),
{
    let text = key + following;
    if key.len() > 0 {
        assert(id_char(key[0]));
        assert(text.skip(1) =~= key.skip(1) + following);
        lemma_key_length(key.skip(1), following);
    } else {
        assert(text =~= following);
    }
}

proof fn lemma_line_length(line: Seq<char>, following: Seq<char>)
    requires
        line.len() > 0,
        line.last() == '\n',
        forall|i: int| 0 <= i < line.len() - 1 ==> #[trigger] line[i] != '\n',
    ensures
        line_length(line + following) == line.len(),
    decreases line.len(),
{
    let text = line + following;
    if line.len() > 1 {
        assert(text[0] == line[0]);
        assert(text.skip(1) =~= line.skip(1) + following);
        lemma_line_length(line.skip(1), following);
    }
}

/// Nothing says nothing.
pub proof fn lemma_nothing()
    ensures
        read_document(Seq::empty()) == Some(Seq::<(Seq<char>, Seq<char>)>::empty()),
{
    reveal(read_document);
}

/// A comment says nothing.
pub proof fn lemma_comment(line: Seq<char>, following: Seq<char>)
    requires
        line.len() > 0,
        line[0] == '#',
        line.last() == '\n',
        forall|i: int| 0 <= i < line.len() - 1 ==> #[trigger] line[i] != '\n',
    ensures
        read_document(line + following) == read_document(following),
{
    reveal(read_document);
    lemma_line_length(line, following);
    assert((line + following).skip(line.len() as int) =~= following);
}

/// A blank line says nothing.
pub proof fn lemma_blank_line(following: Seq<char>)
    ensures
        read_document("\n"@ + following) == read_document(following),
{
    reveal(read_document);
    reveal_strlit("\n");
    assert(("\n"@ + following).skip(1) =~= following);
}

/// A line of a key and a literal says that the key has the value.
pub proof fn lemma_entry(
    key: Seq<char>,
    literal: Seq<char>,
    value: Seq<char>,
    following: Seq<char>,
    more: Seq<(Seq<char>, Seq<char>)>,
)
    requires
        bare_key(key),
        reads_back(literal, value),
        read_document(following) == Some(more),
        !has_key(more, key),
    ensures
        read_document(key + " = "@ + literal + "\n"@ + following) == Some(
            seq![(key, value)] + more,
        ),
{
    reveal(read_document);
    reveal_strlit(" = ");
    reveal_strlit("\n");
    let text = key + " = "@ + literal + "\n"@ + following;
    let rest = "\n"@ + following;
    let length = key.len() as int;
    let behind = " = "@ + literal + rest;
    assert(text =~= key + behind);
    lemma_key_length(key, behind);
    assert(text.subrange(length, length + 3) =~= " = "@);
    assert(text.skip(length + 3) =~= literal + rest);
    assert(text.take(length) =~= key);
    assert(read_string(literal + rest) == Some((value, rest)));
    lemma_blank_line(following);
    assert(id_char(key[0]));
    assert(text[0] == key[0]);
}

} // verus!
