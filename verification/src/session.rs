//! The state of one session: who is connected, and what was said. Inbound
//! frames are folded into it one at a time.

use crate::codec::{
    ChatMessage, ChatMessageView, DecodeError, ProtocolFrame, ProtocolFrameView,
    chat_message_text, decode_chat_message, decode_frame, decoded_chat_message, decoded_frame,
    encode_chat_message, encode_frame, frame_text,
};
use crate::connection::{ConnectionHandle, ConnectionView, SendError, sent};
use crate::text::{ends_with, text_ends_with, text_eq};
use vstd::prelude::*;
use vstd::string::StringExecFns;

verus! {

/// The address of the picture that is shown for the user `name`.
pub open spec fn avatar_url_of(name: Seq<char>) -> Seq<char> {
    "https://avatars.dicebear.com/api/adventurer-neutral/"@ + name + ".svg"@
}

/// The address of the picture that is shown for the user `name`: the same
/// address for the same name, always.
pub fn avatar_url(name: &str) -> (r: String)
    ensures
        r@ == avatar_url_of(name@),
{
    let mut url = "https://avatars.dicebear.com/api/adventurer-neutral/".to_owned();
    url.append(name);
    url.append(".svg");
    url
}

/// Different names have different addresses.
pub proof fn lemma_avatar_url_tells_names_apart(a: Seq<char>, b: Seq<char>)
    requires
        avatar_url_of(a) == avatar_url_of(b),
    ensures
        a == b,
{
    let prefix = "https://avatars.dicebear.com/api/adventurer-neutral/"@;
    let suffix = ".svg"@;
    let ua = avatar_url_of(a);
    let ub = avatar_url_of(b);
    assert(ua.len() == prefix.len() + a.len() + suffix.len());
    assert(ub.len() == prefix.len() + b.len() + suffix.len());
    assert forall|i: int| 0 <= i < a.len() implies a[i] == b[i] by {
        assert(ua[prefix.len() + i] == a[i]);
        assert(ub[prefix.len() + i] == b[i]);
    }
}

/// Whether a message body is shown as a picture: it ends in `.gif`.
pub fn is_image(body: &str) -> (r: bool)
    ensures
        r == ends_with(body@, ".gif"@),
{
    text_ends_with(body, ".gif")
}

/// One connected user, as the roster lists it.
#[derive(Debug, Clone, PartialEq, Eq)]
pub struct UserProfile {
    name: String,
    avatar_url: String,
}

/// The mathematical value of a [`UserProfile`].
pub struct UserProfileView {
    pub name: Seq<char>,
    pub avatar_url: Seq<char>,
}

/// The profile of the user `name`.
pub open spec fn profile_of(name: Seq<char>) -> UserProfileView {
    UserProfileView { name, avatar_url: avatar_url_of(name) }
}

/// The profiles of the users `names`, in the same order.
pub open spec fn profiles_of(names: Seq<Seq<char>>) -> Seq<UserProfileView> {
    Seq::new(names.len(), |i: int| profile_of(names[i]))
}

impl View for UserProfile {
    type V = UserProfileView;

    closed spec fn view(&self) -> UserProfileView {
        UserProfileView { name: self.name@, avatar_url: self.avatar_url@ }
    }
}

impl UserProfile {
    /// The profile of the user `name`.
    pub fn new(name: String) -> (r: UserProfile)
        ensures
            r@ == profile_of(name@),
    {
        let avatar_url = avatar_url(name.as_str());
        UserProfile { name, avatar_url }
    }

    pub fn name(&self) -> (r: &str)
        ensures
            r@ == self@.name,
    {
        self.name.as_str()
    }

    pub fn avatar_url(&self) -> (r: &str)
        ensures
            r@ == self@.avatar_url,
    {
        self.avatar_url.as_str()
    }

    /// A second profile of the same user.
    pub fn duplicate(&self) -> (r: UserProfile)
        ensures
            r@ == self@,
    {
        UserProfile { name: self.name.clone(), avatar_url: self.avatar_url.clone() }
    }
}

pub open spec fn profiles_view(v: Seq<UserProfile>) -> Seq<UserProfileView> {
    Seq::new(v.len(), |i: int| v[i]@)
}

pub open spec fn messages_view(v: Seq<ChatMessage>) -> Seq<ChatMessageView> {
    Seq::new(v.len(), |i: int| v[i]@)
}

/// The first profile of `roster` that has the name `name`.
pub open spec fn lookup(roster: Seq<UserProfileView>, name: Seq<char>) -> Option<UserProfileView>
    decreases roster.len(),
{
    if roster.len() == 0 {
        None
    } else if roster[0].name == name {
        Some(roster[0])
    } else {
        lookup(roster.skip(1), name)
    }
}

/// The client-side state of one session.
pub struct Session {
    username: String,
    registered: bool,
    roster: Vec<UserProfile>,
    message_log: Vec<ChatMessage>,
}

/// The mathematical value of a [`Session`].
pub struct SessionView {
    /// The name under which this client takes part.
    pub username: Seq<char>,
    /// Whether the name was announced to the server.
    pub registered: bool,
    /// Who is connected, as the last roster update listed it.
    pub roster: Seq<UserProfileView>,
    /// Every chat message received so far, oldest first.
    pub message_log: Seq<ChatMessageView>,
}

impl View for Session {
    type V = SessionView;

    closed spec fn view(&self) -> SessionView {
        SessionView {
            username: self.username@,
            registered: self.registered,
            roster: profiles_view(self.roster@),
            message_log: messages_view(self.message_log@),
        }
    }
}

/// Every profile of the roster is the one that belongs to its name.
pub open spec fn roster_is_derived(roster: Seq<UserProfileView>) -> bool {
    forall|i: int| 0 <= i < roster.len() ==> #[trigger] roster[i] == profile_of(roster[i].name)
}

/// The session after one frame was folded into it. A roster update replaces
/// the roster as a whole. A chat message is decoded and put at the end of
/// the log; where its payload does not decode, the frame fails. Every other
/// frame leaves the session as it is.
pub open spec fn folded(session: SessionView, frame: ProtocolFrameView) -> Result<
    SessionView,
    DecodeError,
> {
    match frame {
        ProtocolFrameView::RosterUpdate { names } => Ok(
            SessionView { roster: profiles_of(names), ..session },
        ),
        ProtocolFrameView::ChatMessage { payload } => match decoded_chat_message(payload) {
            Ok(message) => Ok(
                SessionView { message_log: session.message_log.push(message), ..session },
            ),
            Err(e) => Err(e),
        },
        _ => Ok(session),
    }
}

/// Whether folding a frame of this kind changes what is shown.
pub open spec fn is_shown(frame: ProtocolFrameView) -> bool {
    frame is RosterUpdate || frame is ChatMessage
}

/// The session after the frames of `frames` were folded into it one after
/// the other, where a frame that fails is left out.
pub open spec fn folded_all(session: SessionView, frames: Seq<ProtocolFrameView>) -> SessionView
    decreases frames.len(),
{
    if frames.len() == 0 {
        session
    } else {
        let before = folded_all(session, frames.drop_last());
        match folded(before, frames.last()) {
            Ok(after) => after,
            Err(_) => before,
        }
    }
}

/// The session after the frame that `text` holds was received.
pub open spec fn folded_text(session: SessionView, text: Seq<char>) -> Result<
    SessionView,
    DecodeError,
> {
    match decoded_frame(text) {
        Ok(frame) => folded(session, frame),
        Err(e) => Err(e),
    }
}

/// The frame that announces `username`.
pub open spec fn register_text(username: Seq<char>) -> Seq<char> {
    frame_text(ProtocolFrameView::Register { username })
}

/// The frame that carries the chat text `text`. The sender is left empty:
/// the server fills it in when it passes the message on.
pub open spec fn chat_text(text: Seq<char>) -> Seq<char> {
    frame_text(
        ProtocolFrameView::ChatMessage {
            payload: chat_message_text(ChatMessageView { from: Seq::empty(), body: text }),
        },
    )
}

/// Writes the frame that carries the chat text `text`.
pub fn encode_chat_text(text: &str) -> (r: String)
    ensures
        r@ == chat_text(text@),
{
    let message = ChatMessage { from: String::new(), body: text.to_owned() };
    let payload = encode_chat_message(&message);
    encode_frame(&ProtocolFrame::ChatMessage { payload })
}

impl Session {
    /// Every profile of the roster is the one that belongs to its name.
    pub closed spec fn wf(&self) -> bool {
        roster_is_derived(profiles_view(self.roster@))
    }

    /// The session of `username`: not yet registered, nobody on the roster,
    /// nothing in the log.
    pub fn new(username: String) -> (r: Session)
        ensures
            r.wf(),
            r@ == (SessionView {
                username: username@,
                registered: false,
                roster: Seq::empty(),
                message_log: Seq::empty(),
            }),
    {
        let r = Session {
            username,
            registered: false,
            roster: Vec::new(),
            message_log: Vec::new(),
        };
        assert(r@.roster =~= Seq::<UserProfileView>::empty());
        assert(r@.message_log =~= Seq::<ChatMessageView>::empty());
        r
    }

    pub fn username(&self) -> (r: &str)
        ensures
            r@ == self@.username,
    {
        self.username.as_str()
    }

    pub fn is_registered(&self) -> (r: bool)
        ensures
            r == self@.registered,
    {
        self.registered
    }

    /// Who is connected, as the last roster update listed it, each with the
    /// profile that belongs to the name.
    pub fn roster(&self) -> (r: &Vec<UserProfile>)
        ensures
            profiles_view(r@) == self@.roster,
            self.wf() ==> roster_is_derived(self@.roster),
    {
        &self.roster
    }

    /// Every chat message received so far, oldest first.
    pub fn message_log(&self) -> (r: &Vec<ChatMessage>)
        ensures
            messages_view(r@) == self@.message_log,
    {
        &self.message_log
    }

    /// Announces the name of this session on `connection`. Where the
    /// connection accepts the frame, the session counts as registered: no
    /// answer is waited for. Where it does not, nothing changes. A session
    /// that is registered already announces its name again and stays
    /// registered.
    pub fn register(&mut self, connection: &mut ConnectionHandle) -> (r: Result<(), SendError>)
        requires
            old(connection).wf(),
        ensures
            final(connection).wf(),
            final(self).wf() == old(self).wf(),
            match r {
                Ok(_) => sent(old(connection)@, register_text(old(self)@.username)) == Ok::<
                    _,
                    SendError,
                >(final(connection)@) && final(self)@ == (SessionView {
                    registered: true,
                    ..old(self)@
                }),
                Err(e) => sent(old(connection)@, register_text(old(self)@.username)) == Err::<
                    ConnectionView,
                    _,
                >(e) && final(connection)@ == old(connection)@ && final(self)@ == old(self)@,
            },
    {
        let frame = ProtocolFrame::Register { username: self.username.clone() };
        match connection.send(encode_frame(&frame)) {
            Ok(_) => {
                self.registered = true;
                Ok(())
            },
            Err(e) => Err(e),
        }
    }

    /// Sends the chat text `text` on `connection`.
    pub fn submit_chat_text(&self, connection: &mut ConnectionHandle, text: &str) -> (r: Result<
        (),
        SendError,
    >)
        requires
            old(connection).wf(),
        ensures
            final(connection).wf(),
            match r {
                Ok(_) => sent(old(connection)@, chat_text(text@)) == Ok::<_, SendError>(
                    final(connection)@,
                ),
                Err(e) => sent(old(connection)@, chat_text(text@)) == Err::<ConnectionView, _>(e)
                    && final(connection)@ == old(connection)@,
            },
    {
        connection.send(encode_chat_text(text))
    }

    /// Folds one frame into the session. `Ok` says whether what is shown
    /// changed. A frame that fails leaves the session as it was.
    pub fn apply(&mut self, frame: &ProtocolFrame) -> (r: Result<bool, DecodeError>)
        requires
            old(self).wf(),
        ensures
            final(self).wf(),
            match r {
                Ok(shown) => folded(old(self)@, frame@) == Ok::<_, DecodeError>(final(self)@)
                    && shown == is_shown(frame@),
                Err(e) => folded(old(self)@, frame@) == Err::<SessionView, _>(e) && final(self)@
                    == old(self)@,
            },
    {
        match frame {
            ProtocolFrame::RosterUpdate { names } => {
                let mut roster: Vec<UserProfile> = Vec::new();
                let mut i: usize = 0;
                while i < names.len()
                    invariant
                        i <= names.len(),
                        roster.len() == i,
                        forall|k: int|
                            0 <= k < i ==> #[trigger] roster@[k]@ == profile_of(names@[k]@),
                    decreases names.len() - i,
                {
                    roster.push(UserProfile::new(names[i].clone()));
                    i += 1;
                }
                self.roster = roster;
                assert(final(self)@.roster =~= profiles_of(frame@->RosterUpdate_names));
                Ok(true)
            },
            ProtocolFrame::ChatMessage { payload } => {
                match decode_chat_message(payload.as_str()) {
                    Ok(message) => {
                        self.message_log.push(message);
                        assert(final(self)@.message_log =~= old(self)@.message_log.push(message@));
                        Ok(true)
                    },
                    Err(e) => Err(e),
                }
            },
            _ => Ok(false),
        }
    }

    /// Decodes the frame that `text` holds and folds it into the session.
    /// `Ok` says whether what is shown changed. A text that does not decode
    /// leaves the session as it was.
    pub fn apply_text(&mut self, text: &str) -> (r: Result<bool, DecodeError>)
        requires
            old(self).wf(),
        ensures
            final(self).wf(),
            match r {
                Ok(shown) => folded_text(old(self)@, text@) == Ok::<_, DecodeError>(final(self)@)
                    && decoded_frame(text@) is Ok && shown == is_shown(
                    decoded_frame(text@)->Ok_0,
                ),
                Err(e) => folded_text(old(self)@, text@) == Err::<SessionView, _>(e) && final(self)@
                    == old(self)@,
            },
    {
        match decode_frame(text) {
            Ok(frame) => self.apply(&frame),
            Err(e) => Err(e),
        }
    }

    /// The first profile of the roster that has the name `name`.
    pub fn profile(&self, name: &str) -> (r: Option<&UserProfile>)
        ensures
            match r {
                Some(profile) => lookup(self@.roster, name@) == Some(profile@),
                None => lookup(self@.roster, name@) is None,
            },
    {
        let ghost all = profiles_view(self.roster@);
        assert(all.skip(0) =~= all);
        let mut i: usize = 0;
        while i < self.roster.len()
            invariant
                i <= self.roster.len(),
                all == profiles_view(self.roster@),
                lookup(all.skip(i as int), name@) == lookup(all, name@),
            decreases self.roster.len() - i,
        {
            assert(all.skip(i as int).skip(1) == all.skip(i + 1));
            if text_eq(self.roster[i].name(), name) {
                return Some(&self.roster[i]);
            }
            i += 1;
        }
        None
    }
}

} // verus!
