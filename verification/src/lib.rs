//! The client-side core of a real-time chat.
//!
//! One websocket carries every frame between the client and the server. This
//! crate holds what the client decides about those frames, proved against the
//! contracts that its functions state:
//!
//! - [`codec`] writes and reads the frames of the wire protocol. [`grammar`]
//!   says what a text holds, [`scan`] computes it, [`quote`] writes strings,
//!   and [`readback`] and [`codec_laws`] show that what is written is read
//!   back unchanged.
//! - [`session`] is the state of one session, the roster and the message
//!   log, and the fold of inbound frames into it; [`session_laws`] holds
//!   what is true of it after any run of frames.
//! - [`bus`] is the publish/subscribe hub between the connection and the
//!   screens, with [`bus_laws`] on the order in which messages come out.
//! - [`connection`] is the send channel of the connection: bounded, never
//!   waiting, refusing what it cannot take.
//! - [`chat`] and [`login`] are the two screens: what they hold, what they
//!   do when told something, and what they show.
//!
//! Nothing here touches the network or the page. The websocket and the
//! markup live with the caller, which hands in what arrived and draws what
//! [`Chat::view`] and [`login()`] give back.
//!
//! Three decisions of this crate are worth knowing:
//!
//! - A frame with an unknown tag is no error. It decodes to
//!   [`codec::ProtocolFrame::Unrecognized`] and changes nothing.
//! - A text that does not decode is an error value, never a panic, and
//!   leaves the session as it was.
//! - A chat message from a sender that the roster does not list stays in
//!   the log; [`Chat::view`] fails with the name of that sender until a
//!   roster lists it.

pub mod bus;
pub mod bus_laws;
pub mod chat;
pub mod codec;
pub mod codec_laws;
pub mod connection;
pub mod grammar;
pub mod login;
pub mod quote;
pub mod readback;
pub mod scan;
pub mod session;
pub mod session_laws;
pub mod text;

pub use chat::{Chat, Msg};
pub use codec::MsgTypes;
pub use login::login;
