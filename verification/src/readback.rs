//! What was written as a JSON string is read back as the text it was written
//! from.

use crate::grammar::{
    escape_at, hex4_at, hex_value, is_control, reads, reads_word, string_at, string_rest,
    unicode_escape_at,
};
use crate::quote::{escaped, escaped_text, hex_digit_of, quoted};
use vstd::prelude::*;

verus! {

/// Where a word stands in a text, each of its characters stands there.
pub proof fn lemma_word_char(s: Seq<char>, i: int, word: Seq<char>, k: int)
    requires
        reads_word(s, i, word),
        0 <= k < word.len(),
    ensures
        0 <= i + k < s.len(),
        s[i + k] == word[k],
{
}

/// Where two words stand in a text one after the other, their concatenation
/// stands there, and the other way round.
pub proof fn lemma_word_split(s: Seq<char>, i: int, left: Seq<char>, right: Seq<char>)
    requires
        0 <= i,
    ensures
        reads_word(s, i, left + right) <==> reads_word(s, i, left) && reads_word(
            s,
            i + left.len(),
            right,
        ),
{
    let whole = left + right;
    if reads_word(s, i, whole) {
        assert forall|k: int| 0 <= k < left.len() implies s.subrange(i, i + left.len())[k]
            == left[k] by {
            lemma_word_char(s, i, whole, k);
        }
        assert(s.subrange(i, i + left.len()) =~= left);
        assert forall|k: int| 0 <= k < right.len() implies s.subrange(
            i + left.len(),
            i + left.len() + right.len(),
        )[k] == right[k] by {
            lemma_word_char(s, i, whole, left.len() + k);
        }
        assert(s.subrange(i + left.len(), i + left.len() + right.len()) =~= right);
    }
    if reads_word(s, i, left) && reads_word(s, i + left.len(), right) {
        assert forall|k: int| 0 <= k < whole.len() implies s.subrange(i, i + whole.len())[k]
            == whole[k] by {
            if k < left.len() {
                lemma_word_char(s, i, left, k);
            } else {
                lemma_word_char(s, i + left.len(), right, k - left.len());
            }
        }
        assert(s.subrange(i, i + whole.len()) =~= whole);
    }
}

proof fn lemma_hex_digit_value(n: int)
    requires
        0 <= n < 16,
    ensures
        hex_value(hex_digit_of(n)) == Some(n),
{
}

/// Reading one escaped character gives the character.
proof fn lemma_escaped_step(s: Seq<char>, i: int, c: char, acc: Seq<char>)
    requires
        reads_word(s, i, escaped(c)),
    ensures
        string_rest(s, i, acc) == string_rest(s, i + escaped(c).len(), acc.push(c)),
{
    let word = escaped(c);
    lemma_word_char(s, i, word, 0);
    if word.len() >= 2 {
        lemma_word_char(s, i, word, 1);
    }
    if c != '"' && c != '\\' && c != '\x08' && c != '\x0c' && c != '\n' && c != '\r' && c != '\t'
        && is_control(c) {
        lemma_word_char(s, i, word, 2);
        lemma_word_char(s, i, word, 3);
        lemma_word_char(s, i, word, 4);
        lemma_word_char(s, i, word, 5);
        let code = c as int;
        lemma_hex_digit_value(code / 16);
        lemma_hex_digit_value(code % 16);
        lemma_hex_digit_value(0);
    }
}

/// Reading an escaped text gives the text, whatever follows it.
pub proof fn lemma_escaped_text_steps(s: Seq<char>, i: int, text: Seq<char>, acc: Seq<char>)
    requires
        reads_word(s, i, escaped_text(text)),
    ensures
        string_rest(s, i, acc) == string_rest(s, i + escaped_text(text).len(), acc + text),
    decreases text.len(),
{
    if text.len() > 0 {
        let init = text.drop_last();
        lemma_word_split(s, i, escaped_text(init), escaped(text.last()));
        lemma_escaped_text_steps(s, i, init, acc);
        lemma_escaped_step(s, i + escaped_text(init).len(), text.last(), acc + init);
        assert((acc + init).push(text.last()) =~= acc + text);
    }
}

/// Where the JSON string written from `text` stands, the string that is read
/// there is `text`, and reading ends just after it.
pub proof fn lemma_quoted_reads_back(s: Seq<char>, i: int, text: Seq<char>)
    requires
        reads_word(s, i, quoted(text)),
    ensures
        string_at(s, i) == Some((text, i + quoted(text).len())),
        reads(s, i, '"'),
{
    let body = escaped_text(text);
    lemma_word_split(s, i, seq!['"'] + body, seq!['"']);
    lemma_word_split(s, i, seq!['"'], body);
    lemma_word_char(s, i, seq!['"'], 0);
    lemma_word_char(s, i + 1 + body.len(), seq!['"'], 0);
    lemma_escaped_text_steps(s, i + 1, text, Seq::empty());
}

} // verus!
