//! The reader of the wire text: executable counterparts of the grammar, each
//! proved to compute what the grammar says.

use crate::grammar::{
    Field, FieldView, MAX_NESTING, digits_end, elements_end, escape_at, field_at, fields_rest,
    fields_view, hex4_at, hex_value, is_control, is_digit, members_end, number_end, object_fields,
    reads, reads_word, skip_spaces, string_at, string_rest, texts_at, texts_rest,
    unicode_escape_at, value_end,
};
use crate::text::{push_char, texts_view};
use vstd::prelude::*;

verus! {

/// `char::from_u32`: the character with the given code, for every code that
/// is a Unicode scalar value, and `None` for the others.
#[verifier::external_body]
fn char_of_code(code: u32) -> (r: Option<char>)
    ensures
        r is Some <==> code < 0xD800 || 0xE000 <= code <= 0x10FFFF,
        r matches Some(c) ==> c as int == code as int,
{
    char::from_u32(code)
}

/// The first position from `i` on that holds no space.
pub fn skip_spaces_from(s: &Vec<char>, i: usize) -> (r: usize)
    requires
        i <= s.len(),
    ensures
        r == skip_spaces(s@, i as int),
        i <= r <= s.len(),
{
    let mut j: usize = i;
    while j < s.len() && (s[j] == ' ' || s[j] == '\t' || s[j] == '\n' || s[j] == '\r')
        invariant
            i <= j <= s.len(),
            skip_spaces(s@, j as int) == skip_spaces(s@, i as int),
        decreases s.len() - j,
    {
        j += 1;
    }
    j
}

fn control(c: char) -> (r: bool)
    ensures
        r == is_control(c),
{
    c <= '\x1f'
}

fn digit(c: char) -> (r: bool)
    ensures
        r == is_digit(c),
{
    '0' <= c && c <= '9'
}

/// The first position from `i` on that holds no digit.
fn skip_digits_from(s: &Vec<char>, i: usize) -> (r: usize)
    requires
        i <= s.len(),
    ensures
        r == digits_end(s@, i as int),
        i <= r <= s.len(),
{
    let mut j: usize = i;
    while j < s.len() && digit(s[j])
        invariant
            i <= j <= s.len(),
            digits_end(s@, j as int) == digits_end(s@, i as int),
        decreases s.len() - j,
    {
        j += 1;
    }
    j
}

/// Whether `c` stands at position `i`.
fn reads_at(s: &Vec<char>, i: usize, c: char) -> (r: bool)
    ensures
        r == reads(s@, i as int, c),
{
    i < s.len() && s[i] == c
}

fn hex_digit(c: char) -> (r: Option<u32>)
    ensures
        match r {
            Some(v) => hex_value(c) == Some(v as int) && v < 16,
            None => hex_value(c) is None,
        },
{
    if '0' <= c && c <= '9' {
        Some(c as u32 - 0x30)
    } else if 'a' <= c && c <= 'f' {
        Some(c as u32 - 0x61 + 10)
    } else if 'A' <= c && c <= 'F' {
        Some(c as u32 - 0x41 + 10)
    } else {
        None
    }
}

fn read_hex4(s: &Vec<char>, i: usize) -> (r: Option<u32>)
    requires
        i <= s.len(),
    ensures
        match r {
            Some(v) => hex4_at(s@, i as int) == Some(v as int) && v <= 0xFFFF && i + 4 <= s.len(),
            None => hex4_at(s@, i as int) is None,
        },
{
    if s.len() - i < 4 {
        return None;
    }
    match (hex_digit(s[i]), hex_digit(s[i + 1]), hex_digit(s[i + 2]), hex_digit(s[i + 3])) {
        (Some(a), Some(b), Some(c), Some(d)) => Some(((a * 16 + b) * 16 + c) * 16 + d),
        _ => None,
    }
}

fn read_unicode_escape(s: &Vec<char>, i: usize) -> (r: Option<(char, usize)>)
    requires
        i <= s.len(),
    ensures
        match r {
            Some((c, next)) => unicode_escape_at(s@, i as int) == Some((c, next as int)) && i
                < next <= s.len(),
            None => unicode_escape_at(s@, i as int) is None,
        },
{
    let first = match read_hex4(s, i) {
        Some(first) => first,
        None => { return None; },
    };
    if 0xD800 <= first && first <= 0xDBFF {
        if !(reads_at(s, i + 4, '\\') && reads_at(s, i + 5, 'u')) {
            return None;
        }
        let second = match read_hex4(s, i + 6) {
            Some(second) => second,
            None => { return None; },
        };
        if !(0xDC00 <= second && second <= 0xDFFF) {
            return None;
        }
        let code: u32 = 0x10000 + (first - 0xD800) * 0x400 + (second - 0xDC00);
        match char_of_code(code) {
            Some(c) => Some((c, i + 10)),
            None => None,
        }
    } else if 0xDC00 <= first && first <= 0xDFFF {
        None
    } else {
        match char_of_code(first) {
            Some(c) => Some((c, i + 4)),
            None => None,
        }
    }
}

fn read_escape(s: &Vec<char>, i: usize) -> (r: Option<(char, usize)>)
    requires
        i <= s.len(),
    ensures
        match r {
            Some((c, next)) => escape_at(s@, i as int) == Some((c, next as int)) && i < next
                <= s.len(),
            None => escape_at(s@, i as int) is None,
        },
{
    if i >= s.len() {
        return None;
    }
    let c = s[i];
    if c == '"' {
        Some(('"', i + 1))
    } else if c == '\\' {
        Some(('\\', i + 1))
    } else if c == '/' {
        Some(('/', i + 1))
    } else if c == 'b' {
        Some(('\x08', i + 1))
    } else if c == 'f' {
        Some(('\x0c', i + 1))
    } else if c == 'n' {
        Some(('\n', i + 1))
    } else if c == 'r' {
        Some(('\r', i + 1))
    } else if c == 't' {
        Some(('\t', i + 1))
    } else if c == 'u' {
        read_unicode_escape(s, i + 1)
    } else {
        None
    }
}

/// Reads the string whose opening quote stands at `i`.
pub fn read_string(s: &Vec<char>, i: usize) -> (r: Option<(String, usize)>)
    requires
        i <= s.len(),
    ensures
        match r {
            Some((text, end)) => string_at(s@, i as int) == Some((text@, end as int)) && i < end
                <= s.len(),
            None => string_at(s@, i as int) is None,
        },
{
    if !reads_at(s, i, '"') {
        return None;
    }
    let mut out = String::new();
    let mut j: usize = i + 1;
    loop
        invariant
            i < j <= s.len(),
            string_rest(s@, j as int, out@) == string_at(s@, i as int),
        decreases s.len() - j,
    {
        if j >= s.len() {
            return None;
        }
        let c = s[j];
        if c == '"' {
            return Some((out, j + 1));
        }
        if c == '\\' {
            match read_escape(s, j + 1) {
                Some((escaped, next)) => {
                    push_char(&mut out, escaped);
                    j = next;
                },
                None => { return None; },
            }
        } else if control(c) {
            return None;
        } else {
            push_char(&mut out, c);
            j += 1;
        }
    }
}

/// Whether the characters of `word` stand in `s` from position `i` on.
fn reads_word_at(s: &Vec<char>, i: usize, word: &str) -> (r: bool)
    requires
        i <= s.len(),
    ensures
        r == reads_word(s@, i as int, word@),
{
    let n = word.unicode_len();
    if s.len() - i < n {
        return false;
    }
    let mut k: usize = 0;
    while k < n
        invariant
            k <= n,
            n == word@.len(),
            i + n <= s.len(),
            s@.subrange(i as int, i + k) == word@.subrange(0, k as int),
        decreases n - k,
    {
        if s[i + k] != word.get_char(k) {
            return false;
        }
        k += 1;
    }
    assert(word@.subrange(0, n as int) == word@);
    true
}

/// The position after the number that starts at `i`.
fn skip_number(s: &Vec<char>, i: usize) -> (r: Option<usize>)
    requires
        i <= s.len(),
    ensures
        match r {
            Some(end) => number_end(s@, i as int) == Some(end as int) && i < end <= s.len(),
            None => number_end(s@, i as int) is None,
        },
{
    let start = if reads_at(s, i, '-') {
        i + 1
    } else {
        i
    };
    if !(start < s.len() && digit(s[start])) {
        return None;
    }
    let whole = if s[start] == '0' {
        start + 1
    } else {
        skip_digits_from(s, start + 1)
    };
    let mantissa = if reads_at(s, whole, '.') {
        if whole + 1 < s.len() && digit(s[whole + 1]) {
            skip_digits_from(s, whole + 1)
        } else {
            return None;
        }
    } else {
        whole
    };
    if reads_at(s, mantissa, 'e') || reads_at(s, mantissa, 'E') {
        let digits = if reads_at(s, mantissa + 1, '+') || reads_at(s, mantissa + 1, '-') {
            mantissa + 2
        } else {
            mantissa + 1
        };
        if digits < s.len() && digit(s[digits]) {
            Some(skip_digits_from(s, digits))
        } else {
            None
        }
    } else {
        Some(mantissa)
    }
}

/// The position after the value that starts at `i`, whatever it is, where
/// arrays and objects nest at most `depth` deep in it.
pub fn skip_value(s: &Vec<char>, i: usize, depth: usize) -> (r: Option<usize>)
    requires
        i <= s.len(),
    ensures
        match r {
            Some(end) => value_end(s@, i as int, depth as nat) == Some(end as int) && i < end
                <= s.len(),
            None => value_end(s@, i as int, depth as nat) is None,
        },
    decreases depth, s.len() - i, 0nat,
{
    if i >= s.len() {
        return None;
    }
    let c = s[i];
    if c == '"' {
        match read_string(s, i) {
            Some((_, end)) => Some(end),
            None => None,
        }
    } else if c == '[' {
        let first = skip_spaces_from(s, i + 1);
        if depth == 0 {
            None
        } else if reads_at(s, first, ']') {
            Some(first + 1)
        } else {
            skip_elements(s, first, depth - 1)
        }
    } else if c == '{' {
        let first = skip_spaces_from(s, i + 1);
        if depth == 0 {
            None
        } else if reads_at(s, first, '}') {
            Some(first + 1)
        } else {
            skip_members(s, first, depth - 1)
        }
    } else if c == 't' {
        if reads_word_at(s, i, "true") {
            proof {
                reveal_strlit("true");
            }
            Some(i + 4)
        } else {
            None
        }
    } else if c == 'f' {
        if reads_word_at(s, i, "false") {
            proof {
                reveal_strlit("false");
            }
            Some(i + 5)
        } else {
            None
        }
    } else if c == 'n' {
        if reads_word_at(s, i, "null") {
            proof {
                reveal_strlit("null");
            }
            Some(i + 4)
        } else {
            None
        }
    } else {
        skip_number(s, i)
    }
}

/// The position after the closing bracket of an array, where `first` is the
/// start of one of its elements.
fn skip_elements(s: &Vec<char>, first: usize, depth: usize) -> (r: Option<usize>)
    requires
        first <= s.len(),
    ensures
        match r {
            Some(end) => elements_end(s@, first as int, depth as nat) == Some(end as int) && first
                < end <= s.len(),
            None => elements_end(s@, first as int, depth as nat) is None,
        },
    decreases depth, s.len() - first, 1nat,
{
    let mut i: usize = first;
    loop
        invariant
            first <= i <= s.len(),
            elements_end(s@, i as int, depth as nat) == elements_end(
                s@,
                first as int,
                depth as nat,
            ),
        decreases s.len() - i,
    {
        let end = match skip_value(s, i, depth) {
            Some(end) => end,
            None => { return None; },
        };
        let mark = skip_spaces_from(s, end);
        if reads_at(s, mark, ']') {
            return Some(mark + 1);
        }
        if !reads_at(s, mark, ',') {
            return None;
        }
        i = skip_spaces_from(s, mark + 1);
    }
}

/// The position after the closing brace of an object, where `first` is the
/// start of one of its members.
fn skip_members(s: &Vec<char>, first: usize, depth: usize) -> (r: Option<usize>)
    requires
        first <= s.len(),
    ensures
        match r {
            Some(end) => members_end(s@, first as int, depth as nat) == Some(end as int) && first
                < end <= s.len(),
            None => members_end(s@, first as int, depth as nat) is None,
        },
    decreases depth, s.len() - first, 1nat,
{
    let mut i: usize = first;
    loop
        invariant
            first <= i <= s.len(),
            members_end(s@, i as int, depth as nat) == members_end(s@, first as int, depth as nat),
        decreases s.len() - i,
    {
        let key_end = match read_string(s, i) {
            Some((_, key_end)) => key_end,
            None => { return None; },
        };
        let colon = skip_spaces_from(s, key_end);
        if !reads_at(s, colon, ':') {
            return None;
        }
        let value = skip_spaces_from(s, colon + 1);
        let end = match skip_value(s, value, depth) {
            Some(end) => end,
            None => { return None; },
        };
        let mark = skip_spaces_from(s, end);
        if reads_at(s, mark, '}') {
            return Some(mark + 1);
        }
        if !reads_at(s, mark, ',') {
            return None;
        }
        i = skip_spaces_from(s, mark + 1);
    }
}

/// Reads the array of strings whose opening bracket stands at `i`.
pub fn read_texts(s: &Vec<char>, i: usize) -> (r: Option<(Vec<String>, usize)>)
    requires
        i <= s.len(),
    ensures
        match r {
            Some((texts, end)) => texts_at(s@, i as int) == Some((texts_view(texts@), end as int))
                && i < end <= s.len(),
            None => texts_at(s@, i as int) is None,
        },
{
    if !reads_at(s, i, '[') {
        return None;
    }
    let first = skip_spaces_from(s, i + 1);
    let mut out: Vec<String> = Vec::new();
    assert(texts_view(out@) == Seq::<Seq<char>>::empty());
    if reads_at(s, first, ']') {
        return Some((out, first + 1));
    }
    let mut j: usize = first;
    loop
        invariant
            i < first <= j <= s.len(),
            texts_rest(s@, j as int, texts_view(out@)) == texts_at(s@, i as int),
        decreases s.len() - j,
    {
        let (text, end) = match read_string(s, j) {
            Some(found) => found,
            None => { return None; },
        };
        let ghost before = texts_view(out@);
        out.push(text);
        assert(texts_view(out@) == before.push(text@));
        let mark = skip_spaces_from(s, end);
        if reads_at(s, mark, ']') {
            return Some((out, mark + 1));
        }
        if !reads_at(s, mark, ',') {
            return None;
        }
        j = skip_spaces_from(s, mark + 1);
    }
}

/// Reads what the value at `i` holds for the protocol.
pub fn read_field(s: &Vec<char>, i: usize) -> (r: Option<(Field, usize)>)
    requires
        i <= s.len(),
    ensures
        match r {
            Some((field, end)) => field_at(s@, i as int, (MAX_NESTING - 1) as nat) == Some(
                (field@, end as int),
            ) && i < end <= s.len(),
            None => field_at(s@, i as int, (MAX_NESTING - 1) as nat) is None,
        },
{
    if reads_at(s, i, '"') {
        return match read_string(s, i) {
            Some((text, end)) => Some((Field::Text(text), end)),
            None => None,
        };
    }
    if reads_word_at(s, i, "null") {
        proof {
            reveal_strlit("null");
        }
        return Some((Field::Null, i + 4));
    }
    match read_texts(s, i) {
        Some((texts, end)) => Some((Field::Texts(texts), end)),
        None => match skip_value(s, i, MAX_NESTING - 1) {
            Some(end) => Some((Field::Other, end)),
            None => None,
        },
    }
}

/// Reads the members of the one object that `s` holds, in the order of the
/// text.
pub fn read_object(s: &Vec<char>) -> (r: Option<Vec<(String, Field)>>)
    ensures
        match r {
            Some(fields) => object_fields(s@) == Some(fields_view(fields@)),
            None => object_fields(s@) is None,
        },
{
    let open = skip_spaces_from(s, 0);
    if !reads_at(s, open, '{') {
        return None;
    }
    let first = skip_spaces_from(s, open + 1);
    let mut out: Vec<(String, Field)> = Vec::new();
    assert(fields_view(out@) == Seq::<(Seq<char>, FieldView)>::empty());
    if reads_at(s, first, '}') {
        if skip_spaces_from(s, first + 1) == s.len() {
            return Some(out);
        }
        return None;
    }
    let mut i: usize = first;
    loop
        invariant
            first <= i <= s.len(),
            reads(s@, open as int, '{'),
            !reads(s@, first as int, '}'),
            first == skip_spaces(s@, open + 1),
            open == skip_spaces(s@, 0),
            fields_rest(s@, i as int, fields_view(out@)) == fields_rest(
                s@,
                first as int,
                Seq::empty(),
            ),
        decreases s.len() - i,
    {
        let (key, key_end) = match read_string(s, i) {
            Some(found) => found,
            None => { return None; },
        };
        let colon = skip_spaces_from(s, key_end);
        if !reads_at(s, colon, ':') {
            return None;
        }
        let value = skip_spaces_from(s, colon + 1);
        let (field, end) = match read_field(s, value) {
            Some(found) => found,
            None => { return None; },
        };
        let ghost before = fields_view(out@);
        let ghost member = (key@, field@);
        out.push((key, field));
        assert(fields_view(out@) == before.push(member));
        let mark = skip_spaces_from(s, end);
        if reads_at(s, mark, '}') {
            if skip_spaces_from(s, mark + 1) == s.len() {
                return Some(out);
            }
            return None;
        }
        if !reads_at(s, mark, ',') {
            return None;
        }
        i = skip_spaces_from(s, mark + 1);
    }
}

} // verus!
