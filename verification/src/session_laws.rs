//! What holds of a session whatever frames are folded into it.

use crate::codec::ProtocolFrameView;
use crate::session::{SessionView, folded, folded_all, profiles_of, roster_is_derived};
use vstd::prelude::*;

verus! {

/// After a run of frames that ends in a roster update, the roster is what
/// that update listed: nothing of an earlier roster is left.
pub proof fn lemma_last_roster_update_wins(session: SessionView, frames: Seq<ProtocolFrameView>)
    requires
        frames.len() > 0,
        frames.last() is RosterUpdate,
    ensures
        folded_all(session, frames).roster == profiles_of(frames.last()->RosterUpdate_names),
{
}

/// A run of roster updates changes the roster and nothing else.
pub proof fn lemma_roster_updates_touch_the_roster_only(
    session: SessionView,
    frames: Seq<ProtocolFrameView>,
)
    requires
        forall|i: int| 0 <= i < frames.len() ==> #[trigger] frames[i] is RosterUpdate,
    ensures
        folded_all(session, frames).username == session.username,
        folded_all(session, frames).registered == session.registered,
        folded_all(session, frames).message_log == session.message_log,
    decreases frames.len(),
{
    if frames.len() > 0 {
        lemma_roster_updates_touch_the_roster_only(session, frames.drop_last());
    }
}

/// Whatever frames are folded in, the name of the session stays, and the log
/// keeps what it held and only grows behind it.
pub proof fn lemma_log_only_grows(session: SessionView, frames: Seq<ProtocolFrameView>)
    ensures
        folded_all(session, frames).username == session.username,
        folded_all(session, frames).registered == session.registered,
        session.message_log.is_prefix_of(folded_all(session, frames).message_log),
    decreases frames.len(),
{
    if frames.len() > 0 {
        lemma_log_only_grows(session, frames.drop_last());
    }
}

/// Whatever frames are folded in, every profile of the roster stays the one
/// that belongs to its name.
pub proof fn lemma_roster_stays_derived(session: SessionView, frames: Seq<ProtocolFrameView>)
    requires
        roster_is_derived(session.roster),
    ensures
        roster_is_derived(folded_all(session, frames).roster),
    decreases frames.len(),
{
    if frames.len() > 0 {
        lemma_roster_stays_derived(session, frames.drop_last());
    }
}

/// A frame that fails leaves nothing behind: the session after it is the
/// session before it.
pub proof fn lemma_failed_frame_is_left_out(
    session: SessionView,
    frames: Seq<ProtocolFrameView>,
    frame: ProtocolFrameView,
)
    requires
        folded(folded_all(session, frames), frame) is Err,
    ensures
        folded_all(session, frames.push(frame)) == folded_all(session, frames),
{
    assert(frames.push(frame).drop_last() =~= frames);
}

} // verus!
