//! The grammar of the wire text: JSON as RFC 8259 defines it, stated as
//! functions from a text and a position to what stands there.
//!
//! Every function takes the whole text `s` and a position `i` in it. A
//! function named `..._end` gives the position just after what it recognises;
//! a function named `..._at` also gives the value that it read.

use crate::text::texts_view;
use vstd::prelude::*;

verus! {

/// How many arrays and objects may stand inside one another in a text, the
/// outermost object counted, before the text is refused.
pub const MAX_NESTING: usize = 128;

/// What a member of an object holds, as far as the protocol reads it.
#[derive(Debug)]
pub enum Field {
    /// The literal `null`.
    Null,
    /// A string.
    Text(String),
    /// An array whose elements are all strings.
    Texts(Vec<String>),
    /// Any other value.
    Other,
}

/// The mathematical value of a [`Field`].
pub enum FieldView {
    Null,
    Text(Seq<char>),
    Texts(Seq<Seq<char>>),
    Other,
}

impl View for Field {
    type V = FieldView;

    open spec fn view(&self) -> FieldView {
        match self {
            Field::Null => FieldView::Null,
            Field::Text(t) => FieldView::Text(t@),
            Field::Texts(ts) => FieldView::Texts(texts_view(ts@)),
            Field::Other => FieldView::Other,
        }
    }
}

/// The members that a sequence of named fields holds.
pub open spec fn fields_view(v: Seq<(String, Field)>) -> Seq<(Seq<char>, FieldView)> {
    Seq::new(v.len(), |i: int| (v[i].0@, v[i].1@))
}

/// The character `c` stands at position `i` of `s`.
pub open spec fn reads(s: Seq<char>, i: int, c: char) -> bool {
    0 <= i < s.len() && s[i] == c
}

/// The characters of `word` stand in `s` from position `i` on.
pub open spec fn reads_word(s: Seq<char>, i: int, word: Seq<char>) -> bool {
    0 <= i && i + word.len() <= s.len() && s.subrange(i, i + word.len()) == word
}

/// The four characters that JSON allows between tokens.
pub open spec fn is_space(c: char) -> bool {
    c == ' ' || c == '\t' || c == '\n' || c == '\r'
}

/// The characters that a string may hold only escaped.
pub open spec fn is_control(c: char) -> bool {
    c <= '\x1f'
}

pub open spec fn is_digit(c: char) -> bool {
    '0' <= c && c <= '9'
}

/// The first position from `i` on that holds no space.
pub open spec fn skip_spaces(s: Seq<char>, i: int) -> int
    decreases s.len() - i,
{
    if 0 <= i < s.len() && is_space(s[i]) {
        skip_spaces(s, i + 1)
    } else {
        i
    }
}

/// The first position from `i` on that holds no digit.
pub open spec fn digits_end(s: Seq<char>, i: int) -> int
    decreases s.len() - i,
{
    if 0 <= i < s.len() && is_digit(s[i]) {
        digits_end(s, i + 1)
    } else {
        i
    }
}

/// The value of a hexadecimal digit, in either case.
pub open spec fn hex_value(c: char) -> Option<int> {
    if '0' <= c && c <= '9' {
        Some(c as int - 0x30)
    } else if 'a' <= c && c <= 'f' {
        Some(c as int - 0x61 + 10)
    } else if 'A' <= c && c <= 'F' {
        Some(c as int - 0x41 + 10)
    } else {
        None
    }
}

/// The number that the four hexadecimal digits at `i` write.
pub open spec fn hex4_at(s: Seq<char>, i: int) -> Option<int> {
    if 0 <= i && i + 4 <= s.len() {
        match (hex_value(s[i]), hex_value(s[i + 1]), hex_value(s[i + 2]), hex_value(s[i + 3])) {
            (Some(a), Some(b), Some(c), Some(d)) => Some(((a * 16 + b) * 16 + c) * 16 + d),
            _ => None,
        }
    } else {
        None
    }
}

pub open spec fn is_high_surrogate(n: int) -> bool {
    0xD800 <= n <= 0xDBFF
}

pub open spec fn is_low_surrogate(n: int) -> bool {
    0xDC00 <= n <= 0xDFFF
}

/// The code point that a pair of surrogates stands for.
pub open spec fn surrogate_pair(high: int, low: int) -> int {
    0x10000 + (high - 0xD800) * 0x400 + (low - 0xDC00)
}

/// The character written by the hexadecimal escape whose digits start at `i`
/// (just after `\u`), and the position after it. A high surrogate must be
/// followed by an escaped low surrogate; a low surrogate alone is refused.
pub open spec fn unicode_escape_at(s: Seq<char>, i: int) -> Option<(char, int)> {
    match hex4_at(s, i) {
        None => None,
        Some(first) => {
            if is_high_surrogate(first) {
                if reads(s, i + 4, '\\') && reads(s, i + 5, 'u') {
                    match hex4_at(s, i + 6) {
                        Some(second) if is_low_surrogate(second) => Some(
                            (surrogate_pair(first, second) as char, i + 10),
                        ),
                        _ => None,
                    }
                } else {
                    None
                }
            } else if is_low_surrogate(first) {
                None
            } else {
                Some((first as char, i + 4))
            }
        },
    }
}

/// The character written by the escape whose letter stands at `i` (just after
/// the backslash), and the position after the escape.
pub open spec fn escape_at(s: Seq<char>, i: int) -> Option<(char, int)> {
    if !(0 <= i < s.len()) {
        None
    } else if s[i] == '"' {
        Some(('"', i + 1))
    } else if s[i] == '\\' {
        Some(('\\', i + 1))
    } else if s[i] == '/' {
        Some(('/', i + 1))
    } else if s[i] == 'b' {
        Some(('\x08', i + 1))
    } else if s[i] == 'f' {
        Some(('\x0c', i + 1))
    } else if s[i] == 'n' {
        Some(('\n', i + 1))
    } else if s[i] == 'r' {
        Some(('\r', i + 1))
    } else if s[i] == 't' {
        Some(('\t', i + 1))
    } else if s[i] == 'u' {
        unicode_escape_at(s, i + 1)
    } else {
        None
    }
}

/// The rest of a string from position `i` on, where `acc` holds what was read
/// of it so far: the whole string, and the position after its closing quote.
/// A control character that is not escaped is refused.
pub open spec fn string_rest(s: Seq<char>, i: int, acc: Seq<char>) -> Option<(Seq<char>, int)>
    decreases s.len() - i,
{
    if !(0 <= i < s.len()) {
        None
    } else if s[i] == '"' {
        Some((acc, i + 1))
    } else if s[i] == '\\' {
        match escape_at(s, i + 1) {
            Some((c, next)) if next > i => string_rest(s, next, acc.push(c)),
            _ => None,
        }
    } else if is_control(s[i]) {
        None
    } else {
        string_rest(s, i + 1, acc.push(s[i]))
    }
}

/// The string whose opening quote stands at `i`, and the position after it.
pub open spec fn string_at(s: Seq<char>, i: int) -> Option<(Seq<char>, int)> {
    if reads(s, i, '"') {
        string_rest(s, i + 1, Seq::empty())
    } else {
        None
    }
}

/// The position after the number that starts at `i`.
pub open spec fn number_end(s: Seq<char>, i: int) -> Option<int> {
    let start = if reads(s, i, '-') {
        i + 1
    } else {
        i
    };
    if !(0 <= start < s.len() && is_digit(s[start])) {
        None
    } else {
        let whole = if s[start] == '0' {
            start + 1
        } else {
            digits_end(s, start)
        };
        let fraction = if reads(s, whole, '.') {
            if 0 <= whole + 1 < s.len() && is_digit(s[whole + 1]) {
                Some(digits_end(s, whole + 1))
            } else {
                None
            }
        } else {
            Some(whole)
        };
        match fraction {
            None => None,
            Some(mantissa) => {
                if reads(s, mantissa, 'e') || reads(s, mantissa, 'E') {
                    let digits = if reads(s, mantissa + 1, '+') || reads(s, mantissa + 1, '-') {
                        mantissa + 2
                    } else {
                        mantissa + 1
                    };
                    if 0 <= digits < s.len() && is_digit(s[digits]) {
                        Some(digits_end(s, digits))
                    } else {
                        None
                    }
                } else {
                    Some(mantissa)
                }
            },
        }
    }
}

/// The position after the value that starts at `i`, whatever it is, where
/// arrays and objects nest at most `depth` deep in it.
pub open spec fn value_end(s: Seq<char>, i: int, depth: nat) -> Option<int>
    decreases depth, s.len() - i, 0nat,
{
    if !(0 <= i < s.len()) {
        None
    } else if s[i] == '"' {
        match string_at(s, i) {
            Some((_, end)) => Some(end),
            None => None,
        }
    } else if s[i] == '[' {
        let first = skip_spaces(s, i + 1);
        if depth == 0 {
            None
        } else if reads(s, first, ']') {
            Some(first + 1)
        } else {
            elements_end(s, first, (depth - 1) as nat)
        }
    } else if s[i] == '{' {
        let first = skip_spaces(s, i + 1);
        if depth == 0 {
            None
        } else if reads(s, first, '}') {
            Some(first + 1)
        } else {
            members_end(s, first, (depth - 1) as nat)
        }
    } else if s[i] == 't' {
        if reads_word(s, i, "true"@) {
            Some(i + 4)
        } else {
            None
        }
    } else if s[i] == 'f' {
        if reads_word(s, i, "false"@) {
            Some(i + 5)
        } else {
            None
        }
    } else if s[i] == 'n' {
        if reads_word(s, i, "null"@) {
            Some(i + 4)
        } else {
            None
        }
    } else {
        number_end(s, i)
    }
}

/// The position after the closing bracket of an array, where `i` is the
/// start of one of its elements.
pub open spec fn elements_end(s: Seq<char>, i: int, depth: nat) -> Option<int>
    decreases depth, s.len() - i, 1nat,
{
    match value_end(s, i, depth) {
        None => None,
        Some(end) => {
            let mark = skip_spaces(s, end);
            let next = skip_spaces(s, mark + 1);
            if reads(s, mark, ']') {
                Some(mark + 1)
            } else if reads(s, mark, ',') && i < next <= s.len() {
                elements_end(s, next, depth)
            } else {
                None
            }
        },
    }
}

/// The position after the closing brace of an object, where `i` is the start
/// of one of its members.
pub open spec fn members_end(s: Seq<char>, i: int, depth: nat) -> Option<int>
    decreases depth, s.len() - i, 1nat,
{
    match string_at(s, i) {
        None => None,
        Some((_, key_end)) => {
            let colon = skip_spaces(s, key_end);
            let value = skip_spaces(s, colon + 1);
            if reads(s, colon, ':') && i <= value <= s.len() {
                match value_end(s, value, depth) {
                    None => None,
                    Some(end) => {
                        let mark = skip_spaces(s, end);
                        let next = skip_spaces(s, mark + 1);
                        if reads(s, mark, '}') {
                            Some(mark + 1)
                        } else if reads(s, mark, ',') && i < next <= s.len() {
                            members_end(s, next, depth)
                        } else {
                            None
                        }
                    },
                }
            } else {
                None
            }
        },
    }
}

/// The rest of an array of strings, where `i` is the start of one of its
/// elements and `acc` holds the elements before it: all the elements, and the
/// position after the closing bracket.
pub open spec fn texts_rest(s: Seq<char>, i: int, acc: Seq<Seq<char>>) -> Option<
    (Seq<Seq<char>>, int),
>
    decreases s.len() - i,
{
    match string_at(s, i) {
        None => None,
        Some((text, end)) => {
            let mark = skip_spaces(s, end);
            let next = skip_spaces(s, mark + 1);
            if reads(s, mark, ']') {
                Some((acc.push(text), mark + 1))
            } else if reads(s, mark, ',') && i < next <= s.len() {
                texts_rest(s, next, acc.push(text))
            } else {
                None
            }
        },
    }
}

/// The array of strings whose opening bracket stands at `i`, and the position
/// after it.
pub open spec fn texts_at(s: Seq<char>, i: int) -> Option<(Seq<Seq<char>>, int)> {
    let first = skip_spaces(s, i + 1);
    if !reads(s, i, '[') {
        None
    } else if reads(s, first, ']') {
        Some((Seq::empty(), first + 1))
    } else {
        texts_rest(s, first, Seq::empty())
    }
}

/// What the value at `i` holds for the protocol, and the position after it.
/// Arrays and objects nest at most `depth` deep in it.
pub open spec fn field_at(s: Seq<char>, i: int, depth: nat) -> Option<(FieldView, int)> {
    if reads(s, i, '"') {
        match string_at(s, i) {
            Some((text, end)) => Some((FieldView::Text(text), end)),
            None => None,
        }
    } else if reads_word(s, i, "null"@) {
        Some((FieldView::Null, i + 4))
    } else {
        match texts_at(s, i) {
            Some((texts, end)) => Some((FieldView::Texts(texts), end)),
            None => match value_end(s, i, depth) {
                Some(end) => Some((FieldView::Other, end)),
                None => None,
            },
        }
    }
}

/// The rest of an object, where `i` is the start of one of its members and
/// `acc` holds the members before it: all the members in the order of the
/// text, and the position after the closing brace.
pub open spec fn fields_rest(
    s: Seq<char>,
    i: int,
    acc: Seq<(Seq<char>, FieldView)>,
) -> Option<(Seq<(Seq<char>, FieldView)>, int)>
    decreases s.len() - i,
{
    match string_at(s, i) {
        None => None,
        Some((key, key_end)) => {
            let colon = skip_spaces(s, key_end);
            let value = skip_spaces(s, colon + 1);
            if reads(s, colon, ':') {
                match field_at(s, value, (MAX_NESTING - 1) as nat) {
                    None => None,
                    Some((field, end)) => {
                        let mark = skip_spaces(s, end);
                        let next = skip_spaces(s, mark + 1);
                        if reads(s, mark, '}') {
                            Some((acc.push((key, field)), mark + 1))
                        } else if reads(s, mark, ',') && i < next <= s.len() {
                            fields_rest(s, next, acc.push((key, field)))
                        } else {
                            None
                        }
                    },
                }
            } else {
                None
            }
        },
    }
}

/// The members of the one object that the text `s` holds, in the order of
/// the text; `None` where `s` is not a single JSON object, spaces around it
/// allowed, or nests deeper than [`MAX_NESTING`].
pub open spec fn object_fields(s: Seq<char>) -> Option<Seq<(Seq<char>, FieldView)>> {
    let open = skip_spaces(s, 0);
    let first = skip_spaces(s, open + 1);
    if !reads(s, open, '{') {
        None
    } else if reads(s, first, '}') {
        if skip_spaces(s, first + 1) == s.len() {
            Some(Seq::empty())
        } else {
            None
        }
    } else {
        match fields_rest(s, first, Seq::empty()) {
            Some((fields, end)) if skip_spaces(s, end) == s.len() => Some(fields),
            _ => None,
        }
    }
}

} // verus!
