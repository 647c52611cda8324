//! The text of the JSON documents that the library writes.

use crate::json::JsonModel;
use crate::outside::hex_digit;
use vstd::prelude::*;
use vstd::utf8::encode_utf8;

verus! {

/// A character inside a string literal. A quote, a backslash and the control characters below a
/// space are escaped, and no others.
pub open spec fn escape(c: char) -> Seq<char> {
    if c == '"' || c == '\\' {
        seq!['\\', c]
    } else if c == '\u{8}' {
        seq!['\\', 'b']
    } else if c == '\t' {
        seq!['\\', 't']
    } else if c == '\n' {
        seq!['\\', 'n']
    } else if c == '\u{c}' {
        seq!['\\', 'f']
    } else if c == '\r' {
        seq!['\\', 'r']
    } else if (c as int) < 32 {
        seq!['\\', 'u', '0', '0', hex_digit(c as int / 16), hex_digit(c as int % 16)]
    } else {
        seq![c]
    }
}

/// A text inside a string literal.
pub open spec fn escaped(text: Seq<char>) -> Seq<char>
    decreases text.len(),
{
    if text.len() == 0 {
        Seq::empty()
    } else {
        escape(text[0]) + escaped(text.skip(1))
    }
}

/// The string literal of a text.
pub open spec fn quoted(text: Seq<char>) -> Seq<char> {
    seq!['"'] + escaped(text) + seq!['"']
}

/// A number in base 10.
pub open spec fn decimal(n: nat) -> Seq<char>
    decreases n,
{
    if n < 10 {
        seq![hex_digit(n as int)]
    } else {
        decimal(n / 10).push(hex_digit(n as int % 10))
    }
}

/// The parts of a list, divided by commas.
pub open spec fn listed(parts: Seq<Seq<char>>) -> Seq<char>
    decreases parts.len(),
{
    if parts.len() == 0 {
        Seq::empty()
    } else if parts.len() == 1 {
        parts[0]
    } else {
        listed(parts.drop_last()) + seq![','] + parts.last()
    }
}

/// The text of a document without members: nothing is said of numbers but non-negative
/// integers, nor of arrays, which the library does not write.
pub open spec fn plain_written(document: JsonModel) -> Seq<char> {
    match document {
        JsonModel::Null => "null"@,
        JsonModel::Bool(true) => "true"@,
        JsonModel::Bool(false) => "false"@,
        JsonModel::Unsigned(n) => decimal(n as nat),
        JsonModel::Text(text) => quoted(text),
        _ => arbitrary(),
    }
}

/// The text of a document, without white space.
pub open spec fn json_written(document: JsonModel) -> Seq<char>
    decreases document,
{
    match document {
        JsonModel::Object(members) => seq!['{'] + listed(
            Seq::new(
                members.len(),
                |i: int|
                    if 0 <= i < members.len() {
                        quoted(members[i].0) + seq![':'] + json_written(members[i].1)
                    } else {
                        arbitrary()
                    },
            ),
        ) + seq!['}'],
        _ => plain_written(document),
    }
}

/// A line break and the indentation of a line, two spaces for each level.
pub open spec fn new_line(depth: nat) -> Seq<char> {
    seq!['\n'] + Seq::new(2 * depth, |i: int| ' ')
}

/// The text of a document at a depth, each member on a line of its own.
pub open spec fn indented(document: JsonModel, depth: nat) -> Seq<char>
    decreases document,
{
    match document {
        JsonModel::Object(members) => if members.len() == 0 {
            "{}"@
        } else {
            seq!['{'] + listed(
                Seq::new(
                    members.len(),
                    |i: int|
                        if 0 <= i < members.len() {
                            new_line(depth + 1) + quoted(members[i].0) + ": "@ + indented(
                                members[i].1,
                                depth + 1,
                            )
                        } else {
                            arbitrary()
                        },
                ),
            ) + new_line(depth) + seq!['}']
        },
        _ => plain_written(document),
    }
}

/// The bytes of a document with each member on a line of its own.
pub open spec fn json_pretty(document: JsonModel) -> Seq<u8> {
    encode_utf8(indented(document, 0))
}

/// How many characters stand before the quote that closes a string literal, in what follows the
/// quote that opens it. A backslash takes the character after it with it.
pub open spec fn literal_length(s: Seq<char>) -> nat
    decreases s.len(),
{
    if s.len() == 0 || s[0] == '"' {
        0
    } else if s[0] == '\\' && s.len() >= 2 {
        2 + literal_length(s.skip(2))
    } else {
        1 + literal_length(s.skip(1))
    }
}

/// The value of a lower-case hexadecimal digit.
pub open spec fn hex_value(c: char) -> int {
    if c <= '9' {
        c as int - '0' as int
    } else {
        c as int - 'a' as int + 10
    }
}

/// The character that a backslash and this one stand for.
pub open spec fn unescape(c: char) -> char {
    if c == 'b' {
        '\u{8}'
    } else if c == 't' {
        '\t'
    } else if c == 'n' {
        '\n'
    } else if c == 'f' {
        '\u{c}'
    } else if c == 'r' {
        '\r'
    } else {
        c
    }
}

/// The text that the inside of a string literal stands for.
pub open spec fn unescaped(s: Seq<char>) -> Seq<char>
    decreases s.len(),
{
    if s.len() == 0 {
        Seq::empty()
    } else if s[0] == '\\' && s.len() >= 6 && s[1] == 'u' {
        seq![
            (4096 * hex_value(s[2]) + 256 * hex_value(s[3]) + 16 * hex_value(s[4]) + hex_value(
                s[5],
            )) as char,
        ] + unescaped(s.skip(6))
    } else if s[0] == '\\' && s.len() >= 2 {
        seq![unescape(s[1])] + unescaped(s.skip(2))
    } else {
        seq![s[0]] + unescaped(s.skip(1))
    }
}

/// The three forms of a character inside a string literal.
proof fn escape_forms(c: char)
    ensures
        ({
            let s = escape(c);
            ||| s == seq![c] && c != '"' && c != '\\' && c >= ' '
            ||| s == seq!['\\', s[1]] && s[1] >= ' ' && s[1] != 'u' && unescape(s[1]) == c
            ||| {
                &&& s == seq!['\\', 'u', '0', '0', s[4], s[5]]
                &&& '0' <= s[4] <= 'f' && '0' <= s[5] <= 'f'
                &&& s[4] != '\\' && s[5] != '\\'
                &&& 16 * hex_value(s[4]) + hex_value(s[5]) == c as int
            }
        }),
{
    let s = escape(c);
    if s.len() == 6 {
        let high = c as int / 16;
        let low = c as int % 16;
        assert(0 <= high < 2 && 0 <= low < 16);
        assert(c as int == 16 * high + low);
        assert(hex_value(hex_digit(high)) == high);
        assert(hex_value(hex_digit(low)) == low);
    }
}

/// The string literal of a text ends with its own last quote, whatever the text holds and
/// whatever follows the literal.
pub proof fn literals_stay_closed(text: Seq<char>, rest: Seq<char>)
    ensures
        literal_length(escaped(text) + seq!['"'] + rest) == escaped(text).len(),
    decreases text.len(),
{
    let whole = escaped(text) + seq!['"'] + rest;
    if text.len() > 0 {
        let first = escape(text[0]);
        let other = escaped(text.skip(1)) + seq!['"'] + rest;
        escape_forms(text[0]);
        literals_stay_closed(text.skip(1), rest);
        assert(whole =~= first + other);
        if first.len() == 1 {
            assert(whole.skip(1) =~= other);
        } else if first.len() == 2 {
            assert(whole.skip(2) =~= other);
        } else {
            assert(whole[2] == '0' && whole[3] == '0' && whole[4] == first[4] && whole[5]
                == first[5]);
            assert(literal_length(whole) == 2 + literal_length(whole.skip(2)));
            assert(whole.skip(2).skip(1) =~= whole.skip(3));
            assert(whole.skip(3).skip(1) =~= whole.skip(4));
            assert(whole.skip(4).skip(1) =~= whole.skip(5));
            assert(whole.skip(5).skip(1) =~= other);
            assert(literal_length(whole.skip(5)) == 1 + literal_length(other));
            assert(literal_length(whole.skip(4)) == 1 + literal_length(whole.skip(5)));
            assert(literal_length(whole.skip(3)) == 1 + literal_length(whole.skip(4)));
        }
    }
}

/// No line break and no other control character below a space stands in a string literal.
pub proof fn literals_stay_on_a_line(text: Seq<char>, i: int)
    requires
        0 <= i < quoted(text).len(),
    ensures
        quoted(text)[i] >= ' ',
    decreases text.len(),
{
    if text.len() > 0 && 0 < i < quoted(text).len() - 1 {
        let first = escape(text[0]);
        escape_forms(text[0]);
        if i > first.len() {
            assert(quoted(text)[i] == quoted(text.skip(1))[i - first.len()]);
            literals_stay_on_a_line(text.skip(1), i - first.len());
        } else {
            assert(quoted(text)[i] == first[i - 1]);
        }
    }
}

/// The string literal of a text stands for that text.
pub proof fn literals_stand_for_their_texts(text: Seq<char>)
    ensures
        unescaped(escaped(text)) == text,
    decreases text.len(),
{
    if text.len() > 0 {
        let first = escape(text[0]);
        let other = escaped(text.skip(1));
        let whole = first + other;
        escape_forms(text[0]);
        literals_stand_for_their_texts(text.skip(1));
        assert(text =~= seq![text[0]] + text.skip(1));
        assert(whole.skip(first.len() as int) =~= other);
        if first.len() == 1 {
            assert(whole[0] == first[0]);
        } else if first.len() == 2 {
            assert(whole[0] == first[0] && whole[1] == first[1]);
        } else {
            assert(whole[0] == '\\' && whole[1] == 'u' && whole[2] == '0' && whole[3] == '0');
            assert(whole[4] == first[4] && whole[5] == first[5]);
        }
    }
}

} // verus!
