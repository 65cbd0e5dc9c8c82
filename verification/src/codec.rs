//! The wire protocol: one JSON object per frame, tagged by `messageType`.
//!
//! ```text
//! { "messageType": "register", "data": "<username>" }
//! { "messageType": "users",    "dataArray": ["name1", "name2"] }
//! { "messageType": "message",  "data": "{\"from\":\"<name>\",\"message\":\"<body>\"}" }
//! ```
//!
//! The payload of a `message` frame is itself the text of an object with the
//! members `from` and `message`: the envelope is dispatched by its tag before
//! the payload is decoded.
//!
//! Decoding ignores members that it does not know. A member that it knows
//! may be absent or `null` where the frame does not use it; it is refused
//! where it stands twice or holds a value of another kind. A tag that is not
//! one of the three is no error: it decodes to [`ProtocolFrame::Unrecognized`].

use crate::grammar::{Field, FieldView, fields_view, object_fields};
use crate::quote::{push_quoted, quoted};
use crate::scan::read_object;
use crate::text::{chars_of, push_char, text_eq, texts_view};
use vstd::prelude::*;

verus! {

/// The tags of the frames that the protocol defines.
#[derive(Debug, Clone, Copy, PartialEq, Eq)]
pub enum MsgTypes {
    Users,
    Register,
    Message,
}

/// Why a text is not a frame, or not a chat message.
#[derive(Debug, Clone, Copy, PartialEq, Eq)]
pub enum DecodeError {
    /// The text is not one JSON object.
    Malformed,
    /// A member that the frame needs is absent.
    MissingField,
    /// A member that the protocol reads stands more than once.
    DuplicateField,
    /// A member that the protocol reads holds a value of the wrong kind.
    UnexpectedType,
}

/// One message of the chat: who sent it, and what it says.
#[derive(Debug, Clone, PartialEq, Eq)]
pub struct ChatMessage {
    pub from: String,
    pub body: String,
}

/// The mathematical value of a [`ChatMessage`].
pub struct ChatMessageView {
    pub from: Seq<char>,
    pub body: Seq<char>,
}

impl View for ChatMessage {
    type V = ChatMessageView;

    open spec fn view(&self) -> ChatMessageView {
        ChatMessageView { from: self.from@, body: self.body@ }
    }
}

/// One frame of the wire protocol.
#[derive(Debug, Clone, PartialEq, Eq)]
pub enum ProtocolFrame {
    /// The client announces its name.
    Register { username: String },
    /// The server lists who is connected.
    RosterUpdate { names: Vec<String> },
    /// A chat message, still encoded.
    ChatMessage { payload: String },
    /// A frame with a tag that this protocol does not define.
    Unrecognized { tag: String },
}

/// The mathematical value of a [`ProtocolFrame`].
pub enum ProtocolFrameView {
    Register { username: Seq<char> },
    RosterUpdate { names: Seq<Seq<char>> },
    ChatMessage { payload: Seq<char> },
    Unrecognized { tag: Seq<char> },
}

impl View for ProtocolFrame {
    type V = ProtocolFrameView;

    open spec fn view(&self) -> ProtocolFrameView {
        match self {
            ProtocolFrame::Register { username } => ProtocolFrameView::Register {
                username: username@,
            },
            ProtocolFrame::RosterUpdate { names } => ProtocolFrameView::RosterUpdate {
                names: texts_view(names@),
            },
            ProtocolFrame::ChatMessage { payload } => ProtocolFrameView::ChatMessage {
                payload: payload@,
            },
            ProtocolFrame::Unrecognized { tag } => ProtocolFrameView::Unrecognized { tag: tag@ },
        }
    }
}

/// The tag that stands for `kind` on the wire.
pub open spec fn tag_text(kind: MsgTypes) -> Seq<char> {
    match kind {
        MsgTypes::Users => "users"@,
        MsgTypes::Register => "register"@,
        MsgTypes::Message => "message"@,
    }
}

/// The kind that `tag` stands for, if it is one of the protocol's tags.
pub open spec fn kind_of_tag(tag: Seq<char>) -> Option<MsgTypes> {
    if tag == "users"@ {
        Some(MsgTypes::Users)
    } else if tag == "register"@ {
        Some(MsgTypes::Register)
    } else if tag == "message"@ {
        Some(MsgTypes::Message)
    } else {
        None
    }
}

impl MsgTypes {
    /// The tag that stands for this kind on the wire.
    pub fn tag(&self) -> (r: &'static str)
        ensures
            r@ == tag_text(*self),
    {
        match self {
            MsgTypes::Users => "users",
            MsgTypes::Register => "register",
            MsgTypes::Message => "message",
        }
    }

    /// The kind that `tag` stands for, if it is one of the protocol's tags.
    pub fn from_tag(tag: &str) -> (r: Option<MsgTypes>)
        ensures
            r == kind_of_tag(tag@),
    {
        if text_eq(tag, "users") {
            Some(MsgTypes::Users)
        } else if text_eq(tag, "register") {
            Some(MsgTypes::Register)
        } else if text_eq(tag, "message") {
            Some(MsgTypes::Message)
        } else {
            None
        }
    }
}

impl ProtocolFrame {
    /// The kind of this frame; `None` for a frame that the protocol does not
    /// define.
    pub fn message_type(&self) -> (r: Option<MsgTypes>)
        ensures
            r == match self@ {
                ProtocolFrameView::Register { .. } => Some(MsgTypes::Register),
                ProtocolFrameView::RosterUpdate { .. } => Some(MsgTypes::Users),
                ProtocolFrameView::ChatMessage { .. } => Some(MsgTypes::Message),
                ProtocolFrameView::Unrecognized { .. } => None,
            },
    {
        match self {
            ProtocolFrame::Register { .. } => Some(MsgTypes::Register),
            ProtocolFrame::RosterUpdate { .. } => Some(MsgTypes::Users),
            ProtocolFrame::ChatMessage { .. } => Some(MsgTypes::Message),
            ProtocolFrame::Unrecognized { .. } => None,
        }
    }
}

// ---------------------------------------------------------------------------
// Writing
// ---------------------------------------------------------------------------

/// One member of an object: its name as a string, a colon, its value.
pub open spec fn member_text(key: Seq<char>, value: Seq<char>) -> Seq<char> {
    quoted(key) + seq![':'] + value
}

/// The strings of `texts`, each written as a JSON string, with commas
/// between them.
pub open spec fn joined_texts(texts: Seq<Seq<char>>) -> Seq<char>
    decreases texts.len(),
{
    if texts.len() == 0 {
        Seq::empty()
    } else if texts.len() == 1 {
        quoted(texts[0])
    } else {
        joined_texts(texts.drop_last()) + seq![','] + quoted(texts.last())
    }
}

/// `texts` as a JSON array of strings.
pub open spec fn texts_text(texts: Seq<Seq<char>>) -> Seq<char> {
    seq!['['] + joined_texts(texts) + seq![']']
}

/// The text of a chat message: an object with the members `from` and
/// `message`, in this order.
pub open spec fn chat_message_text(message: ChatMessageView) -> Seq<char> {
    seq!['{'] + member_text("from"@, quoted(message.from)) + seq![','] + member_text(
        "message"@,
        quoted(message.body),
    ) + seq!['}']
}

/// The text of a frame that has a tag and one more member.
pub open spec fn tagged_text(kind: MsgTypes, key: Seq<char>, value: Seq<char>) -> Seq<char> {
    seq!['{'] + member_text("messageType"@, quoted(tag_text(kind))) + seq![','] + member_text(
        key,
        value,
    ) + seq!['}']
}

/// The text of a frame: an object with the member `messageType` first, then
/// `data` or `dataArray` as the kind of the frame has it.
pub open spec fn frame_text(frame: ProtocolFrameView) -> Seq<char> {
    match frame {
        ProtocolFrameView::Register { username } => tagged_text(
            MsgTypes::Register,
            "data"@,
            quoted(username),
        ),
        ProtocolFrameView::RosterUpdate { names } => tagged_text(
            MsgTypes::Users,
            "dataArray"@,
            texts_text(names),
        ),
        ProtocolFrameView::ChatMessage { payload } => tagged_text(
            MsgTypes::Message,
            "data"@,
            quoted(payload),
        ),
        ProtocolFrameView::Unrecognized { tag } => seq!['{'] + member_text(
            "messageType"@,
            quoted(tag),
        ) + seq!['}'],
    }
}

fn push_member_name(out: &mut String, key: &str)
    ensures
        final(out)@ == old(out)@ + quoted(key@) + seq![':'],
{
    push_quoted(out, key);
    push_char(out, ':');
}

fn push_texts(out: &mut String, texts: &Vec<String>)
    ensures
        final(out)@ == old(out)@ + texts_text(texts_view(texts@)),
{
    let ghost before = out@;
    let ghost all = texts_view(texts@);
    push_char(out, '[');
    let mut i: usize = 0;
    while i < texts.len()
        invariant
            i <= texts.len(),
            all == texts_view(texts@),
            out@ == before + seq!['['] + joined_texts(all.take(i as int)),
        decreases texts.len() - i,
    {
        assert(all.take(i + 1).drop_last() == all.take(i as int));
        if i > 0 {
            push_char(out, ',');
        }
        push_quoted(out, texts[i].as_str());
        i += 1;
    }
    assert(all.take(texts.len() as int) == all);
    push_char(out, ']');
}

/// Writes a chat message as the payload of a `message` frame.
pub fn encode_chat_message(message: &ChatMessage) -> (r: String)
    ensures
        r@ == chat_message_text(message@),
{
    let mut out = String::new();
    push_char(&mut out, '{');
    push_member_name(&mut out, "from");
    push_quoted(&mut out, message.from.as_str());
    push_char(&mut out, ',');
    push_member_name(&mut out, "message");
    push_quoted(&mut out, message.body.as_str());
    push_char(&mut out, '}');
    out
}

/// Writes a frame as the text that goes on the wire.
pub fn encode_frame(frame: &ProtocolFrame) -> (r: String)
    ensures
        r@ == frame_text(frame@),
{
    let mut out = String::new();
    push_char(&mut out, '{');
    push_member_name(&mut out, "messageType");
    match frame {
        ProtocolFrame::Register { username } => {
            push_quoted(&mut out, MsgTypes::Register.tag());
            push_char(&mut out, ',');
            push_member_name(&mut out, "data");
            push_quoted(&mut out, username.as_str());
        },
        ProtocolFrame::RosterUpdate { names } => {
            push_quoted(&mut out, MsgTypes::Users.tag());
            push_char(&mut out, ',');
            push_member_name(&mut out, "dataArray");
            push_texts(&mut out, names);
        },
        ProtocolFrame::ChatMessage { payload } => {
            push_quoted(&mut out, MsgTypes::Message.tag());
            push_char(&mut out, ',');
            push_member_name(&mut out, "data");
            push_quoted(&mut out, payload.as_str());
        },
        ProtocolFrame::Unrecognized { tag } => {
            push_quoted(&mut out, tag.as_str());
        },
    }
    push_char(&mut out, '}');
    out
}

// ---------------------------------------------------------------------------
// Reading
// ---------------------------------------------------------------------------

/// How a name stands among the members of an object.
pub enum Found {
    /// No member has the name.
    Absent,
    /// One member has it, and holds this.
    Once(FieldView),
    /// More than one member has it.
    Repeated,
}

/// How `key` stands among `fields`.
pub open spec fn find(fields: Seq<(Seq<char>, FieldView)>, key: Seq<char>) -> Found
    decreases fields.len(),
{
    if fields.len() == 0 {
        Found::Absent
    } else if fields.last().0 == key {
        match find(fields.drop_last(), key) {
            Found::Absent => Found::Once(fields.last().1),
            _ => Found::Repeated,
        }
    } else {
        find(fields.drop_last(), key)
    }
}

/// The string that the member `key` holds; `None` where the member is absent
/// or `null`.
pub open spec fn text_member(fields: Seq<(Seq<char>, FieldView)>, key: Seq<char>) -> Result<
    Option<Seq<char>>,
    DecodeError,
> {
    match find(fields, key) {
        Found::Absent => Ok(None),
        Found::Once(FieldView::Null) => Ok(None),
        Found::Once(FieldView::Text(text)) => Ok(Some(text)),
        Found::Once(_) => Err(DecodeError::UnexpectedType),
        Found::Repeated => Err(DecodeError::DuplicateField),
    }
}

/// The strings that the member `key` holds; `None` where the member is
/// absent or `null`.
pub open spec fn texts_member(fields: Seq<(Seq<char>, FieldView)>, key: Seq<char>) -> Result<
    Option<Seq<Seq<char>>>,
    DecodeError,
> {
    match find(fields, key) {
        Found::Absent => Ok(None),
        Found::Once(FieldView::Null) => Ok(None),
        Found::Once(FieldView::Texts(texts)) => Ok(Some(texts)),
        Found::Once(_) => Err(DecodeError::UnexpectedType),
        Found::Repeated => Err(DecodeError::DuplicateField),
    }
}

/// The string that the member `key` holds, where it must stand and hold one.
pub open spec fn required_text(fields: Seq<(Seq<char>, FieldView)>, key: Seq<char>) -> Result<
    Seq<char>,
    DecodeError,
> {
    match find(fields, key) {
        Found::Absent => Err(DecodeError::MissingField),
        Found::Once(FieldView::Text(text)) => Ok(text),
        Found::Once(_) => Err(DecodeError::UnexpectedType),
        Found::Repeated => Err(DecodeError::DuplicateField),
    }
}

/// The chat message that an object with these members is.
pub open spec fn chat_message_of_fields(fields: Seq<(Seq<char>, FieldView)>) -> Result<
    ChatMessageView,
    DecodeError,
> {
    match required_text(fields, "from"@) {
        Err(e) => Err(e),
        Ok(from) => match required_text(fields, "message"@) {
            Err(e) => Err(e),
            Ok(body) => Ok(ChatMessageView { from, body }),
        },
    }
}

/// The chat message that `text` is the payload of.
pub open spec fn decoded_chat_message(text: Seq<char>) -> Result<ChatMessageView, DecodeError> {
    match object_fields(text) {
        None => Err(DecodeError::Malformed),
        Some(fields) => chat_message_of_fields(fields),
    }
}

/// The frame of the given kind that an object with these members is. Both
/// `dataArray` and `data` must be what the protocol has them be, also where
/// the kind does not use them. A roster without `dataArray` is empty.
pub open spec fn known_frame_of_fields(
    kind: MsgTypes,
    fields: Seq<(Seq<char>, FieldView)>,
) -> Result<ProtocolFrameView, DecodeError> {
    match texts_member(fields, "dataArray"@) {
        Err(e) => Err(e),
        Ok(names) => match text_member(fields, "data"@) {
            Err(e) => Err(e),
            Ok(data) => match kind {
                MsgTypes::Users => Ok(
                    ProtocolFrameView::RosterUpdate {
                        names: match names {
                            Some(names) => names,
                            None => Seq::empty(),
                        },
                    },
                ),
                MsgTypes::Register => match data {
                    Some(username) => Ok(ProtocolFrameView::Register { username }),
                    None => Err(DecodeError::MissingField),
                },
                MsgTypes::Message => match data {
                    Some(payload) => Ok(ProtocolFrameView::ChatMessage { payload }),
                    None => Err(DecodeError::MissingField),
                },
            },
        },
    }
}

/// The frame that an object with these members is.
pub open spec fn frame_of_fields(fields: Seq<(Seq<char>, FieldView)>) -> Result<
    ProtocolFrameView,
    DecodeError,
> {
    match required_text(fields, "messageType"@) {
        Err(e) => Err(e),
        Ok(tag) => match kind_of_tag(tag) {
            None => Ok(ProtocolFrameView::Unrecognized { tag }),
            Some(kind) => known_frame_of_fields(kind, fields),
        },
    }
}

/// The frame that `text` is.
pub open spec fn decoded_frame(text: Seq<char>) -> Result<ProtocolFrameView, DecodeError> {
    match object_fields(text) {
        None => Err(DecodeError::Malformed),
        Some(fields) => frame_of_fields(fields),
    }
}

/// Where a name was found among the members of an object.
enum Place {
    Nowhere,
    At(usize),
    Twice,
}

fn find_member(fields: &Vec<(String, Field)>, key: &str) -> (r: Place)
    ensures
        match r {
            Place::Nowhere => find(fields_view(fields@), key@) is Absent,
            Place::At(k) => k < fields.len() && find(fields_view(fields@), key@) == Found::Once(
                fields@[k as int].1@,
            ),
            Place::Twice => find(fields_view(fields@), key@) is Repeated,
        },
{
    let ghost all = fields_view(fields@);
    let mut place = Place::Nowhere;
    let mut i: usize = 0;
    while i < fields.len()
        invariant
            i <= fields.len(),
            all == fields_view(fields@),
            match place {
                Place::Nowhere => find(all.take(i as int), key@) is Absent,
                Place::At(k) => k < i && find(all.take(i as int), key@) == Found::Once(
                    fields@[k as int].1@,
                ),
                Place::Twice => find(all.take(i as int), key@) is Repeated,
            },
        decreases fields.len() - i,
    {
        assert(all.take(i + 1).drop_last() == all.take(i as int));
        if text_eq(fields[i].0.as_str(), key) {
            place = match place {
                Place::Nowhere => Place::At(i),
                _ => Place::Twice,
            };
        }
        i += 1;
    }
    assert(all.take(fields.len() as int) == all);
    place
}

fn copy_texts(texts: &Vec<String>) -> (r: Vec<String>)
    ensures
        texts_view(r@) == texts_view(texts@),
{
    let mut out: Vec<String> = Vec::new();
    let mut i: usize = 0;
    while i < texts.len()
        invariant
            i <= texts.len(),
            out.len() == i,
            forall|k: int| 0 <= k < i ==> out@[k]@ == texts@[k]@,
        decreases texts.len() - i,
    {
        out.push(texts[i].clone());
        i += 1;
    }
    out
}

fn read_text_member(fields: &Vec<(String, Field)>, key: &str) -> (r: Result<
    Option<String>,
    DecodeError,
>)
    ensures
        match r {
            Ok(Some(text)) => text_member(fields_view(fields@), key@) == Ok::<_, DecodeError>(
                Some(text@),
            ),
            Ok(None) => text_member(fields_view(fields@), key@) == Ok::<
                Option<Seq<char>>,
                DecodeError,
            >(None),
            Err(e) => text_member(fields_view(fields@), key@) == Err::<Option<Seq<char>>, _>(e),
        },
{
    match find_member(fields, key) {
        Place::Nowhere => Ok(None),
        Place::Twice => Err(DecodeError::DuplicateField),
        Place::At(k) => match &fields[k].1 {
            Field::Null => Ok(None),
            Field::Text(text) => Ok(Some(text.clone())),
            _ => Err(DecodeError::UnexpectedType),
        },
    }
}

fn read_texts_member(fields: &Vec<(String, Field)>, key: &str) -> (r: Result<
    Option<Vec<String>>,
    DecodeError,
>)
    ensures
        match r {
            Ok(Some(texts)) => texts_member(fields_view(fields@), key@) == Ok::<_, DecodeError>(
                Some(texts_view(texts@)),
            ),
            Ok(None) => texts_member(fields_view(fields@), key@) == Ok::<
                Option<Seq<Seq<char>>>,
                DecodeError,
            >(None),
            Err(e) => texts_member(fields_view(fields@), key@) == Err::<
                Option<Seq<Seq<char>>>,
                _,
            >(e),
        },
{
    match find_member(fields, key) {
        Place::Nowhere => Ok(None),
        Place::Twice => Err(DecodeError::DuplicateField),
        Place::At(k) => match &fields[k].1 {
            Field::Null => Ok(None),
            Field::Texts(texts) => Ok(Some(copy_texts(texts))),
            _ => Err(DecodeError::UnexpectedType),
        },
    }
}

fn read_required_text(fields: &Vec<(String, Field)>, key: &str) -> (r: Result<
    String,
    DecodeError,
>)
    ensures
        match r {
            Ok(text) => required_text(fields_view(fields@), key@) == Ok::<_, DecodeError>(text@),
            Err(e) => required_text(fields_view(fields@), key@) == Err::<Seq<char>, _>(e),
        },
{
    match find_member(fields, key) {
        Place::Nowhere => Err(DecodeError::MissingField),
        Place::Twice => Err(DecodeError::DuplicateField),
        Place::At(k) => match &fields[k].1 {
            Field::Text(text) => Ok(text.clone()),
            _ => Err(DecodeError::UnexpectedType),
        },
    }
}

/// Reads the payload of a `message` frame.
pub fn decode_chat_message(text: &str) -> (r: Result<ChatMessage, DecodeError>)
    ensures
        match r {
            Ok(message) => decoded_chat_message(text@) == Ok::<_, DecodeError>(message@),
            Err(e) => decoded_chat_message(text@) == Err::<ChatMessageView, _>(e),
        },
{
    let chars = chars_of(text);
    let fields = match read_object(&chars) {
        Some(fields) => fields,
        None => { return Err(DecodeError::Malformed); },
    };
    let from = match read_required_text(&fields, "from") {
        Ok(from) => from,
        Err(e) => { return Err(e); },
    };
    let body = match read_required_text(&fields, "message") {
        Ok(body) => body,
        Err(e) => { return Err(e); },
    };
    Ok(ChatMessage { from, body })
}

/// Reads one frame from the text that came over the wire.
pub fn decode_frame(text: &str) -> (r: Result<ProtocolFrame, DecodeError>)
    ensures
        match r {
            Ok(frame) => decoded_frame(text@) == Ok::<_, DecodeError>(frame@),
            Err(e) => decoded_frame(text@) == Err::<ProtocolFrameView, _>(e),
        },
{
    let chars = chars_of(text);
    let fields = match read_object(&chars) {
        Some(fields) => fields,
        None => { return Err(DecodeError::Malformed); },
    };
    let tag = match read_required_text(&fields, "messageType") {
        Ok(tag) => tag,
        Err(e) => { return Err(e); },
    };
    let kind = match MsgTypes::from_tag(tag.as_str()) {
        Some(kind) => kind,
        None => { return Ok(ProtocolFrame::Unrecognized { tag }); },
    };
    let names = match read_texts_member(&fields, "dataArray") {
        Ok(names) => names,
        Err(e) => { return Err(e); },
    };
    let data = match read_text_member(&fields, "data") {
        Ok(data) => data,
        Err(e) => { return Err(e); },
    };
    match kind {
        MsgTypes::Users => {
            let names = match names {
                Some(names) => names,
                None => Vec::new(),
            };
            assert(texts_view(Seq::<String>::empty()) =~= Seq::<Seq<char>>::empty());
            Ok(ProtocolFrame::RosterUpdate { names })
        },
        MsgTypes::Register => match data {
            Some(username) => Ok(ProtocolFrame::Register { username }),
            None => Err(DecodeError::MissingField),
        },
        MsgTypes::Message => match data {
            Some(payload) => Ok(ProtocolFrame::ChatMessage { payload }),
            None => Err(DecodeError::MissingField),
        },
    }
}

} // verus!
