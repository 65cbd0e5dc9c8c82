//! What the codec writes, it reads back.

use crate::codec::{
    ChatMessageView, DecodeError, Found, MsgTypes, ProtocolFrameView, chat_message_of_fields,
    chat_message_text, decoded_chat_message, decoded_frame, find, frame_of_fields, frame_text,
    joined_texts, kind_of_tag, member_text, tag_text, tagged_text, texts_text,
};
use crate::grammar::{
    FieldView, MAX_NESTING, field_at, fields_rest, is_space, object_fields, reads, reads_word,
    skip_spaces, string_at, texts_at, texts_rest,
};
use crate::quote::quoted;
use crate::readback::{lemma_quoted_reads_back, lemma_word_char, lemma_word_split};
use vstd::prelude::*;

verus! {

/// Wherever the text `value` stands, the reader finds `field` there and ends
/// just after it; and `value` does not begin with a space.
pub open spec fn reads_as(value: Seq<char>, field: FieldView) -> bool {
    &&& value.len() > 0
    &&& !is_space(value[0])
    &&& forall|s: Seq<char>, p: int| #[trigger]
        reads_word(s, p, value) ==> field_at(s, p, (MAX_NESTING - 1) as nat) == Some(
            (field, p + value.len()),
        )
}

/// A text written as a JSON string is read as that text.
pub proof fn lemma_quoted_reads_as_text(text: Seq<char>)
    ensures
        reads_as(quoted(text), FieldView::Text(text)),
{
    let value = quoted(text);
    assert forall|s: Seq<char>, p: int| #[trigger] reads_word(s, p, value) implies field_at(
        s,
        p,
        (MAX_NESTING - 1) as nat,
    ) == Some((FieldView::Text(text), p + value.len())) by {
        lemma_quoted_reads_back(s, p, text);
    }
}

/// The object text with the two given members.
pub open spec fn object2_text(
    key1: Seq<char>,
    value1: Seq<char>,
    key2: Seq<char>,
    value2: Seq<char>,
) -> Seq<char> {
    seq!['{'] + member_text(key1, value1) + seq![','] + member_text(key2, value2) + seq!['}']
}

/// Reading the member that stands at `at`, where `acc` holds the members
/// before it. The character `after` follows the member: a closing brace, or
/// a comma and then the quote that opens the next member's name.
proof fn lemma_member_reads(
    s: Seq<char>,
    at: int,
    key: Seq<char>,
    value: Seq<char>,
    field: FieldView,
    after: char,
    acc: Seq<(Seq<char>, FieldView)>,
) -> (end: int)
    requires
        reads_word(s, at, member_text(key, value) + seq![after]),
        reads_as(value, field),
        after == ',' || after == '}',
        after == ',' ==> reads(s, at + member_text(key, value).len() + 1, '"'),
    ensures
        end == at + member_text(key, value).len(),
        reads(s, at, '"'),
        after == '}' ==> fields_rest(s, at, acc) == Some((acc.push((key, field)), end + 1)),
        after == ',' ==> fields_rest(s, at, acc) == fields_rest(
            s,
            end + 1,
            acc.push((key, field)),
        ),
{
    let name = quoted(key);
    let member = member_text(key, value);
    let colon = at + name.len();
    let end = at + member.len();
    lemma_word_split(s, at, member, seq![after]);
    lemma_word_split(s, at, name + seq![':'], value);
    lemma_word_split(s, at, name, seq![':']);
    lemma_quoted_reads_back(s, at, key);
    lemma_word_char(s, colon, seq![':'], 0);
    lemma_word_char(s, colon + 1, value, 0);
    lemma_word_char(s, end, seq![after], 0);
    end
}

/// Where the members of an object with two members stand in its text.
proof fn lemma_object2_layout(
    key1: Seq<char>,
    value1: Seq<char>,
    key2: Seq<char>,
    value2: Seq<char>,
)
    ensures
        ({
            let s = object2_text(key1, value1, key2, value2);
            let m1 = member_text(key1, value1);
            let m2 = member_text(key2, value2);
            &&& s.len() == m1.len() + m2.len() + 3
            &&& s[0] == '{'
            &&& reads_word(s, 1, m1 + seq![','])
            &&& reads_word(s, m1.len() as int + 2, m2 + seq!['}'])
        }),
{
    let s = object2_text(key1, value1, key2, value2);
    let m1 = member_text(key1, value1);
    let m2 = member_text(key2, value2);
    let open = seq!['{'];
    let comma = seq![','];
    let close = seq!['}'];
    assert(s.subrange(0, s.len() as int) =~= s);
    lemma_word_split(s, 0, open + m1 + comma + m2, close);
    lemma_word_split(s, 0, open + m1 + comma, m2);
    lemma_word_split(s, 0, open + m1, comma);
    lemma_word_split(s, 0, open, m1);
    lemma_word_split(s, 1, m1, comma);
    lemma_word_split(s, m1.len() as int + 2, m2, close);
    lemma_word_char(s, 0, open, 0);
}

/// An object written with two members is read as these two members.
pub proof fn lemma_object2_reads_back(
    key1: Seq<char>,
    value1: Seq<char>,
    field1: FieldView,
    key2: Seq<char>,
    value2: Seq<char>,
    field2: FieldView,
)
    requires
        reads_as(value1, field1),
        reads_as(value2, field2),
    ensures
        object_fields(object2_text(key1, value1, key2, value2)) == Some(
            seq![(key1, field1), (key2, field2)],
        ),
{
    let s = object2_text(key1, value1, key2, value2);
    let m1 = member_text(key1, value1);
    let none = Seq::<(Seq<char>, FieldView)>::empty();
    let one = none.push((key1, field1));
    let at2 = m1.len() as int + 2;
    lemma_object2_layout(key1, value1, key2, value2);
    lemma_member_reads(s, at2, key2, value2, field2, '}', one);
    lemma_member_reads(s, 1, key1, value1, field1, ',', none);
    assert(skip_spaces(s, 1) == 1);
    assert(skip_spaces(s, s.len() as int) == s.len());
}

/// The payload that is written for a chat message decodes to that message,
/// whatever characters its sender and its body hold.
pub proof fn lemma_chat_message_round_trip(message: ChatMessageView)
    ensures
        decoded_chat_message(chat_message_text(message)) == Ok::<_, DecodeError>(message),
{
    let from = FieldView::Text(message.from);
    let body = FieldView::Text(message.body);
    lemma_quoted_reads_as_text(message.from);
    lemma_quoted_reads_as_text(message.body);
    lemma_object2_reads_back(
        "from"@,
        quoted(message.from),
        from,
        "message"@,
        quoted(message.body),
        body,
    );
    reveal_strlit("from");
    reveal_strlit("message");
    reveal_with_fuel(find, 4);
}

/// What the reader of an array of strings does once it has read an element
/// that began at `at` and ended at `end`, where `acc` holds the elements up
/// to that one.
spec fn texts_after(s: Seq<char>, at: int, end: int, acc: Seq<Seq<char>>) -> Option<
    (Seq<Seq<char>>, int),
> {
    let mark = skip_spaces(s, end);
    let next = skip_spaces(s, mark + 1);
    if reads(s, mark, ']') {
        Some((acc, mark + 1))
    } else if reads(s, mark, ',') && at < next <= s.len() {
        texts_rest(s, next, acc)
    } else {
        None
    }
}

/// Where the last of the joined strings `texts` begins, if they begin at `at`.
spec fn last_text_at(at: int, texts: Seq<Seq<char>>) -> int {
    at + joined_texts(texts).len() - quoted(texts.last()).len()
}

/// Reading strings that were written with commas between them gives these
/// strings, up to the point after the last of them.
proof fn lemma_joined_texts_read(s: Seq<char>, at: int, texts: Seq<Seq<char>>, acc: Seq<Seq<char>>)
    requires
        texts.len() > 0,
        reads_word(s, at, joined_texts(texts)),
    ensures
        at <= last_text_at(at, texts),
        texts_rest(s, at, acc) == texts_after(
            s,
            last_text_at(at, texts),
            at + joined_texts(texts).len(),
            acc + texts,
        ),
    decreases texts.len(),
{
    if texts.len() == 1 {
        lemma_quoted_reads_back(s, at, texts[0]);
        assert(acc.push(texts[0]) =~= acc + texts);
    } else {
        let init = texts.drop_last();
        let last = quoted(texts.last());
        let comma = at + joined_texts(init).len();
        lemma_word_split(s, at, joined_texts(init) + seq![','], last);
        lemma_word_split(s, at, joined_texts(init), seq![',']);
        lemma_word_char(s, comma, seq![','], 0);
        lemma_joined_texts_read(s, at, init, acc);
        lemma_quoted_reads_back(s, comma + 1, texts.last());
        assert((acc + init).push(texts.last()) =~= acc + texts);
    }
}

/// An array of strings that was written is read as these strings.
pub proof fn lemma_texts_read_as_texts(texts: Seq<Seq<char>>)
    ensures
        reads_as(texts_text(texts), FieldView::Texts(texts)),
{
    let value = texts_text(texts);
    let joined = joined_texts(texts);
    reveal_strlit("null");
    assert forall|s: Seq<char>, p: int| #[trigger] reads_word(s, p, value) implies field_at(
        s,
        p,
        (MAX_NESTING - 1) as nat,
    ) == Some((FieldView::Texts(texts), p + value.len())) by {
        lemma_word_split(s, p, seq!['['] + joined, seq![']']);
        lemma_word_split(s, p, seq!['['], joined);
        lemma_word_char(s, p, seq!['['], 0);
        lemma_word_char(s, p + 1 + joined.len(), seq![']'], 0);
        if reads_word(s, p, "null"@) {
            lemma_word_char(s, p, "null"@, 0);
        }
        if texts.len() > 0 {
            lemma_joined_texts_read(s, p + 1, texts, Seq::empty());
            lemma_first_is_quote(texts);
            lemma_word_char(s, p + 1, joined, 0);
        }
    }
}

/// Strings that were joined begin with the quote of the first of them.
proof fn lemma_first_is_quote(texts: Seq<Seq<char>>)
    requires
        texts.len() > 0,
    ensures
        joined_texts(texts).len() > 0,
        joined_texts(texts)[0] == '"',
    decreases texts.len(),
{
    if texts.len() > 1 {
        lemma_first_is_quote(texts.drop_last());
    }
}

/// An object written with one member is read as this member.
pub proof fn lemma_object1_reads_back(key: Seq<char>, value: Seq<char>, field: FieldView)
    requires
        reads_as(value, field),
    ensures
        object_fields(seq!['{'] + member_text(key, value) + seq!['}']) == Some(seq![(key, field)]),
{
    let member = member_text(key, value);
    let s = seq!['{'] + member + seq!['}'];
    let none = Seq::<(Seq<char>, FieldView)>::empty();
    assert(s.subrange(0, s.len() as int) =~= s);
    lemma_word_split(s, 0, seq!['{'] + member, seq!['}']);
    lemma_word_split(s, 0, seq!['{'], member);
    lemma_word_split(s, 1, member, seq!['}']);
    lemma_word_char(s, 0, seq!['{'], 0);
    lemma_member_reads(s, 1, key, value, field, '}', none);
}

/// The names of the members that the protocol reads differ from each other,
/// and so do its three tags.
proof fn lemma_names_differ()
    ensures
        "messageType"@ != "data"@,
        "messageType"@ != "dataArray"@,
        "data"@ != "dataArray"@,
        kind_of_tag(tag_text(MsgTypes::Users)) == Some(MsgTypes::Users),
        kind_of_tag(tag_text(MsgTypes::Register)) == Some(MsgTypes::Register),
        kind_of_tag(tag_text(MsgTypes::Message)) == Some(MsgTypes::Message),
{
    reveal_strlit("messageType");
    reveal_strlit("data");
    reveal_strlit("dataArray");
    reveal_strlit("users");
    reveal_strlit("register");
    reveal_strlit("message");
    assert("messageType"@.len() == 11);
    assert("data"@.len() == 4);
    assert("dataArray"@.len() == 9);
    assert("users"@.len() == 5);
    assert("register"@.len() == 8);
    assert("message"@.len() == 7);
}

/// A frame with a tag and one more member is read as these two members.
proof fn lemma_tagged_reads_back(
    kind: MsgTypes,
    key: Seq<char>,
    value: Seq<char>,
    field: FieldView,
)
    requires
        reads_as(value, field),
        key != "messageType"@,
    ensures
        object_fields(tagged_text(kind, key, value)) == Some(
            seq![("messageType"@, FieldView::Text(tag_text(kind))), (key, field)],
        ),
        find(
            seq![("messageType"@, FieldView::Text(tag_text(kind))), (key, field)],
            "messageType"@,
        ) == Found::Once(FieldView::Text(tag_text(kind))),
        find(seq![("messageType"@, FieldView::Text(tag_text(kind))), (key, field)], key)
            == Found::Once(field),
        forall|other: Seq<char>|
            other != key && other != "messageType"@ ==> find(
                seq![("messageType"@, FieldView::Text(tag_text(kind))), (key, field)],
                other,
            ) == Found::Absent,
{
    let tag = FieldView::Text(tag_text(kind));
    lemma_quoted_reads_as_text(tag_text(kind));
    lemma_object2_reads_back("messageType"@, quoted(tag_text(kind)), tag, key, value, field);
    reveal_with_fuel(find, 4);
}

/// The text that is written for a frame decodes to that frame, whatever
/// characters its strings hold. The one frame that is left out is a frame
/// marked as unrecognized whose tag is one of the protocol's own.
pub proof fn lemma_frame_round_trip(frame: ProtocolFrameView)
    requires
        frame matches ProtocolFrameView::Unrecognized { tag } ==> kind_of_tag(tag) is None,
    ensures
        decoded_frame(frame_text(frame)) == Ok::<_, DecodeError>(frame),
{
    lemma_names_differ();
    match frame {
        ProtocolFrameView::Register { username } => {
            lemma_quoted_reads_as_text(username);
            lemma_tagged_reads_back(
                MsgTypes::Register,
                "data"@,
                quoted(username),
                FieldView::Text(username),
            );
        },
        ProtocolFrameView::ChatMessage { payload } => {
            lemma_quoted_reads_as_text(payload);
            lemma_tagged_reads_back(
                MsgTypes::Message,
                "data"@,
                quoted(payload),
                FieldView::Text(payload),
            );
        },
        ProtocolFrameView::RosterUpdate { names } => {
            lemma_texts_read_as_texts(names);
            lemma_tagged_reads_back(
                MsgTypes::Users,
                "dataArray"@,
                texts_text(names),
                FieldView::Texts(names),
            );
        },
        ProtocolFrameView::Unrecognized { tag } => {
            lemma_quoted_reads_as_text(tag);
            lemma_object1_reads_back("messageType"@, quoted(tag), FieldView::Text(tag));
            reveal_with_fuel(find, 3);
        },
    }
}

/// A chat message that is written as a payload, put into a frame and sent
/// comes out of the frame and of the payload as it went in.
pub proof fn lemma_sent_message_round_trip(message: ChatMessageView)
    ensures
        decoded_frame(
            frame_text(ProtocolFrameView::ChatMessage { payload: chat_message_text(message) }),
        ) == Ok::<_, DecodeError>(
            ProtocolFrameView::ChatMessage { payload: chat_message_text(message) },
        ),
        decoded_chat_message(chat_message_text(message)) == Ok::<_, DecodeError>(message),
{
    lemma_frame_round_trip(ProtocolFrameView::ChatMessage { payload: chat_message_text(message) });
    lemma_chat_message_round_trip(message);
}

/// A member that the protocol does not read changes nothing of what an
/// object decodes to, whatever the member holds.
pub proof fn lemma_unknown_member_is_ignored(
    fields: Seq<(Seq<char>, FieldView)>,
    key: Seq<char>,
    field: FieldView,
)
    ensures
        key != "messageType"@ && key != "data"@ && key != "dataArray"@ ==> frame_of_fields(
            fields.push((key, field)),
        ) == frame_of_fields(fields),
        key != "from"@ && key != "message"@ ==> chat_message_of_fields(fields.push((key, field)))
            == chat_message_of_fields(fields),
{
    assert(fields.push((key, field)).drop_last() =~= fields);
}

} // verus!
