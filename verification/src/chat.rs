//! The chat screen: the session it shows, the text in its input field, its
//! connection and its subscription to the bus.

use crate::bus::{EventBus, SubscriptionHandle};
use crate::codec::{ChatMessageView, DecodeError, decoded_frame};
use crate::connection::{ConnectionHandle, ConnectionView, ReceiveError, SendError, sent};
use crate::session::{
    Session, SessionView, UserProfile, UserProfileView, chat_text, folded_text, is_image, is_shown,
    lookup, messages_view, profiles_view, register_text,
};
use crate::text::ends_with;
use vstd::prelude::*;

verus! {

/// What the chat screen is told.
#[derive(Debug, Clone, PartialEq, Eq)]
pub enum Msg {
    /// A frame arrived; this is its text.
    HandleMsg(String),
    /// The user asked to send what the input field holds.
    SubmitMessage,
}

/// The mathematical value of a [`Msg`].
pub enum MsgView {
    HandleMsg(Seq<char>),
    SubmitMessage,
}

impl View for Msg {
    type V = MsgView;

    open spec fn view(&self) -> MsgView {
        match self {
            Msg::HandleMsg(text) => MsgView::HandleMsg(text@),
            Msg::SubmitMessage => MsgView::SubmitMessage,
        }
    }
}

/// Why an update did not do what it was asked.
#[derive(Debug, Clone, Copy, PartialEq, Eq)]
pub enum UpdateError {
    /// The frame that arrived does not decode. It was dropped.
    Decode(DecodeError),
    /// The connection did not accept the frame to send. It was dropped.
    Send(SendError),
}

/// A chat message names a sender that the roster does not list.
#[derive(Debug, Clone, PartialEq, Eq)]
pub struct RosterLookupError {
    /// The name that was looked for.
    pub sender: String,
}

/// One chat message as it is shown.
#[derive(Debug, Clone, PartialEq, Eq)]
pub struct MessageView {
    pub from: String,
    /// The picture of the sender.
    pub avatar_url: String,
    pub body: String,
    /// Whether the body is shown as a picture rather than as text.
    pub is_image: bool,
}

/// The mathematical value of a [`MessageView`].
pub struct ShownMessage {
    pub from: Seq<char>,
    pub avatar_url: Seq<char>,
    pub body: Seq<char>,
    pub is_image: bool,
}

impl View for MessageView {
    type V = ShownMessage;

    open spec fn view(&self) -> ShownMessage {
        ShownMessage {
            from: self.from@,
            avatar_url: self.avatar_url@,
            body: self.body@,
            is_image: self.is_image,
        }
    }
}

/// What the chat screen shows.
#[derive(Debug, Clone, PartialEq, Eq)]
pub struct ChatView {
    /// Who is connected.
    pub users: Vec<UserProfile>,
    /// What was said, oldest first.
    pub messages: Vec<MessageView>,
}

pub open spec fn shown_view(v: Seq<MessageView>) -> Seq<ShownMessage> {
    Seq::new(v.len(), |i: int| v[i]@)
}

/// How the messages of `log` are shown beside the roster `roster`: each with
/// the picture of the first profile that has its sender's name. Where a
/// sender is not on the roster, the result is the name of the first such
/// sender.
pub open spec fn shown_messages(
    roster: Seq<UserProfileView>,
    log: Seq<ChatMessageView>,
) -> Result<Seq<ShownMessage>, Seq<char>>
    decreases log.len(),
{
    if log.len() == 0 {
        Ok(Seq::empty())
    } else {
        match shown_messages(roster, log.drop_last()) {
            Err(sender) => Err(sender),
            Ok(shown) => match lookup(roster, log.last().from) {
                None => Err(log.last().from),
                Some(profile) => Ok(
                    shown.push(
                        ShownMessage {
                            from: log.last().from,
                            avatar_url: profile.avatar_url,
                            body: log.last().body,
                            is_image: ends_with(log.last().body, ".gif"@),
                        },
                    ),
                ),
            },
        }
    }
}

/// The chat screen.
pub struct Chat {
    session: Session,
    chat_input: Option<String>,
    wss: ConnectionHandle,
    producer: SubscriptionHandle,
}

/// The mathematical value of a [`Chat`].
pub struct ChatState {
    pub session: SessionView,
    /// What the input field holds; `None` while there is no input field.
    pub chat_input: Option<Seq<char>>,
    pub connection: ConnectionView,
    /// The number by which the bus knows this screen.
    pub subscription: int,
}

/// The screen after it was told `msg`, and what the update answers: whether
/// to draw the screen again, or why the update failed.
///
/// A frame that arrives is folded into the session, and the screen is drawn
/// again where it was a roster update or a chat message; one that does not
/// decode is dropped and changes nothing. A submission sends what the input field
/// holds and empties the field, whether or not the connection took the frame;
/// without an input field it does nothing.
pub open spec fn updated(state: ChatState, msg: MsgView) -> (ChatState, Result<bool, UpdateError>) {
    match msg {
        MsgView::HandleMsg(text) => match folded_text(state.session, text) {
            Ok(session) => (
                ChatState { session, ..state },
                Ok(is_shown(decoded_frame(text)->Ok_0)),
            ),
            Err(e) => (state, Err(UpdateError::Decode(e))),
        },
        MsgView::SubmitMessage => match state.chat_input {
            None => (state, Ok(false)),
            Some(text) => match sent(state.connection, chat_text(text)) {
                Ok(connection) => (
                    ChatState { connection, chat_input: Some(Seq::empty()), ..state },
                    Ok(false),
                ),
                Err(e) => (
                    ChatState { chat_input: Some(Seq::empty()), ..state },
                    Err(UpdateError::Send(e)),
                ),
            },
        },
    }
}

impl Chat {
    /// The mathematical value of the screen.
    pub closed spec fn state(&self) -> ChatState {
        ChatState {
            session: self.session@,
            chat_input: match self.chat_input {
                Some(text) => Some(text@),
                None => None,
            },
            connection: self.wss@,
            subscription: self.producer.id(),
        }
    }

    /// The session and the connection of this screen are well formed.
    pub closed spec fn wf(&self) -> bool {
        self.session.wf() && self.wss.wf()
    }

    /// The screen of the user `username`, on the connection `wss` and with
    /// the subscription `producer`. The name is announced on the connection
    /// at once; where the connection does not take the frame, the screen is
    /// there all the same, and its session is not registered.
    pub fn create(username: String, wss: ConnectionHandle, producer: SubscriptionHandle) -> (r:
        Chat)
        requires
            wss.wf(),
        ensures
            r.wf(),
            r.state().session.username == username@,
            r.state().session.roster == Seq::<UserProfileView>::empty(),
            r.state().session.message_log == Seq::<ChatMessageView>::empty(),
            r.state().chat_input is None,
            r.state().subscription == producer.id(),
            match sent(wss@, register_text(username@)) {
                Ok(connection) => r.state().connection == connection
                    && r.state().session.registered,
                Err(_) => r.state().connection == wss@ && !r.state().session.registered,
            },
    {
        let mut session = Session::new(username);
        let mut wss = wss;
        let _ = session.register(&mut wss);
        Chat { session, chat_input: None, wss, producer }
    }

    /// The session that this screen shows.
    pub fn session(&self) -> (r: &Session)
        ensures
            self.wf() ==> r.wf(),
            r@ == self.state().session,
    {
        &self.session
    }

    /// The handle with which this screen takes its frames from the bus.
    pub fn producer(&self) -> (r: &SubscriptionHandle)
        ensures
            r.id() == self.state().subscription,
    {
        &self.producer
    }

    /// The input field reports what it holds now; `None` where there is no
    /// input field.
    pub fn set_chat_input(&mut self, value: Option<String>)
        ensures
            final(self).wf() == old(self).wf(),
            final(self).state() == (ChatState {
                chat_input: match value {
                    Some(text) => Some(text@),
                    None => None,
                },
                ..old(self).state()
            }),
    {
        self.chat_input = value;
    }

    /// What the input field holds.
    pub fn chat_input(&self) -> (r: Option<&str>)
        ensures
            match r {
                Some(text) => self.state().chat_input == Some(text@),
                None => self.state().chat_input is None,
            },
    {
        match &self.chat_input {
            Some(text) => Some(text.as_str()),
            None => None,
        }
    }

    /// Takes the oldest frame that waits to be transmitted.
    pub fn next_outbound(&mut self) -> (r: Option<String>)
        requires
            old(self).wf(),
        ensures
            final(self).wf(),
            match r {
                Some(text) => old(self).state().connection.outbound.len() > 0 && text@ == old(
                    self,
                ).state().connection.outbound[0] && final(self).state() == (ChatState {
                    connection: ConnectionView {
                        outbound: old(self).state().connection.outbound.skip(1),
                        ..old(self).state().connection
                    },
                    ..old(self).state()
                }),
                None => old(self).state().connection.outbound.len() == 0 && final(self).state()
                    == old(self).state(),
            },
    {
        self.wss.next_outbound()
    }

    /// Hands one frame that arrived on the connection of this screen to the
    /// bus, as it came.
    pub fn receive(&self, text: String, bus: &mut EventBus<String>) -> (r: Result<
        (),
        ReceiveError,
    >)
        requires
            old(bus).wf(),
        ensures
            final(bus).wf(),
            final(bus).limit() == old(bus).limit(),
            match r {
                Ok(_) => !self.state().connection.closed && final(bus)@ == old(bus).after_publish(
                    text,
                ) && !old(bus).has_full_queue(),
                Err(ReceiveError::Closed) => self.state().connection.closed && final(bus)@ == old(
                    bus,
                )@,
                Err(ReceiveError::Overflow) => !self.state().connection.closed && final(bus)@
                    == old(bus).after_publish(text) && old(bus).has_full_queue(),
            },
    {
        self.wss.receive(text, bus)
    }

    /// Closes the connection of this screen: what still waited to be
    /// transmitted is dropped, and every later submission is refused.
    pub fn close(&mut self)
        ensures
            old(self).wf() ==> final(self).wf(),
            final(self).state() == (ChatState {
                connection: ConnectionView {
                    outbound: Seq::empty(),
                    closed: true,
                    ..old(self).state().connection
                },
                ..old(self).state()
            }),
    {
        self.wss.close();
    }

    /// Does what `msg` asks. `Ok` says whether the screen is to be drawn
    /// again.
    pub fn update(&mut self, msg: Msg) -> (r: Result<bool, UpdateError>)
        requires
            old(self).wf(),
        ensures
            final(self).wf(),
            (final(self).state(), r) == updated(old(self).state(), msg@),
    {
        match msg {
            Msg::HandleMsg(text) => match self.session.apply_text(text.as_str()) {
                Ok(shown) => Ok(shown),
                Err(e) => Err(UpdateError::Decode(e)),
            },
            Msg::SubmitMessage => {
                let sending = match &self.chat_input {
                    Some(text) => self.session.submit_chat_text(&mut self.wss, text.as_str()),
                    None => { return Ok(false); },
                };
                self.chat_input = Some(String::new());
                match sending {
                    Ok(_) => Ok(false),
                    Err(e) => Err(UpdateError::Send(e)),
                }
            },
        }
    }

    /// What the screen shows: the roster, and every message with the picture
    /// of its sender. Where a message names a sender that the roster does not
    /// list, nothing is shown, and the error names the first such sender.
    pub fn view(&self) -> (r: Result<ChatView, RosterLookupError>)
        ensures
            match r {
                Ok(shown) => {
                    &&& profiles_view(shown.users@) == self.state().session.roster
                    &&& shown_messages(
                        self.state().session.roster,
                        self.state().session.message_log,
                    ) == Ok::<_, Seq<char>>(shown_view(shown.messages@))
                },
                Err(e) => shown_messages(
                    self.state().session.roster,
                    self.state().session.message_log,
                ) == Err::<Seq<ShownMessage>, _>(e.sender@),
            },
    {
        let roster = self.session.roster();
        let log = self.session.message_log();
        let ghost all = self.state().session.message_log;
        let mut users: Vec<UserProfile> = Vec::new();
        let mut k: usize = 0;
        while k < roster.len()
            invariant
                k <= roster.len(),
                users.len() == k,
                forall|j: int| 0 <= j < k ==> #[trigger] users@[j]@ == roster@[j]@,
            decreases roster.len() - k,
        {
            users.push(roster[k].duplicate());
            k += 1;
        }
        let mut messages: Vec<MessageView> = Vec::new();
        assert(shown_view(messages@) =~= Seq::<ShownMessage>::empty());
        let mut i: usize = 0;
        while i < log.len()
            invariant
                i <= log.len(),
                all == self.state().session.message_log,
                all == messages_view(log@),
                shown_messages(self.state().session.roster, all.take(i as int)) == Ok::<
                    _,
                    Seq<char>,
                >(shown_view(messages@)),
            decreases log.len() - i,
        {
            let message = &log[i];
            assert(all.take(i + 1).drop_last() == all.take(i as int));
            match self.session.profile(message.from.as_str()) {
                None => {
                    proof {
                        lemma_failure_stays(self.state().session.roster, all, i + 1);
                    }
                    return Err(RosterLookupError { sender: message.from.clone() });
                },
                Some(profile) => {
                    let ghost before = shown_view(messages@);
                    let shown = MessageView {
                        from: message.from.clone(),
                        avatar_url: profile.avatar_url().to_owned(),
                        body: message.body.clone(),
                        is_image: is_image(message.body.as_str()),
                    };
                    messages.push(shown);
                    assert(shown_view(messages@) =~= before.push(shown@));
                },
            }
            i += 1;
        }
        assert(all.take(log.len() as int) == all);
        Ok(ChatView { users, messages })
    }

    /// Ends the screen: closes its connection and gives its subscription
    /// back to the bus.
    pub fn destroy(self, bus: &mut EventBus<String>)
        requires
            old(bus).wf(),
        ensures
            final(bus).wf(),
            final(bus)@ == old(bus)@.remove(self.state().subscription),
            final(bus).limit() == old(bus).limit(),
    {
        let Chat { session: _, chat_input: _, wss, producer } = self;
        let mut wss = wss;
        wss.close();
        bus.unsubscribe(producer);
    }
}

/// Once a sender is missing among the first `n` messages, it is the one
/// that is reported for the whole log.
pub proof fn lemma_failure_stays(roster: Seq<UserProfileView>, log: Seq<ChatMessageView>, n: int)
    requires
        0 <= n <= log.len(),
        shown_messages(roster, log.take(n)) is Err,
    ensures
        shown_messages(roster, log) == shown_messages(roster, log.take(n)),
    decreases log.len() - n,
{
    if n < log.len() {
        assert(log.take(n + 1).drop_last() =~= log.take(n));
        lemma_failure_stays(roster, log, n + 1);
    } else {
        assert(log.take(n) =~= log);
    }
}

} // verus!
