//! The receiving side of a control session: every frame is checked against
//! the shared secret before its command is handed on, and the first frame
//! that fails ends the session.

use crate::message::{command_of, Command, CommandView, ControlMessage, ControlMessageView};
use crate::text::same_text;
use vstd::prelude::*;

verus! {

/// Why a frame could not be turned into a control message.
#[derive(Clone, Copy, Debug, PartialEq, Eq, Structural)]
pub enum DecodeError {
    /// The frame is not well-formed JSON.
    Syntax,
    /// The frame is JSON, but a field is missing or holds the wrong kind of
    /// value.
    Fields,
}

/// Why a frame was not handed on.
#[derive(Clone, Copy, Debug, PartialEq, Eq, Structural)]
pub enum SessionError {
    /// The frame could not be decoded. The session is over.
    Decode(DecodeError),
    /// The frame carries a password other than the shared secret. The
    /// session is over.
    WrongPassword,
    /// The session was over before the frame came.
    Closed,
}

/// Whether a presented password is the shared secret: the two are compared
/// character by character, and nothing else counts.
pub fn authenticate(presented: &str, secret: &str) -> (granted: bool)
    ensures
        granted == (presented@ == secret@),
{
    same_text(presented, secret)
}

/// A frame as it comes from the decoder.
pub type Frame = Result<ControlMessage, DecodeError>;

pub type FrameView = Result<ControlMessageView, DecodeError>;

pub open spec fn frame_view(frame: Frame) -> FrameView {
    match frame {
        Ok(message) => Ok(message@),
        Err(error) => Err(error),
    }
}

pub open spec fn outcome_view(outcome: Result<Command, SessionError>) -> Result<
    CommandView,
    SessionError,
> {
    match outcome {
        Ok(command) => Ok(command@),
        Err(error) => Err(error),
    }
}

/// One control session, from the first frame to the one that ends it.
pub struct Session {
    secret: String,
    open: bool,
}

pub struct SessionView {
    pub secret: Seq<char>,
    pub open: bool,
}

impl View for Session {
    type V = SessionView;

    closed spec fn view(&self) -> SessionView {
        SessionView { secret: self.secret@, open: self.open }
    }
}

/// What becomes of one frame: its command is handed on exactly when the
/// session is open, the frame was decoded and its password is the secret.
pub open spec fn screen(session: SessionView, frame: FrameView) -> Result<
    CommandView,
    SessionError,
> {
    if !session.open {
        Err(SessionError::Closed)
    } else {
        match frame {
            Err(error) => Err(SessionError::Decode(error)),
            Ok(message) => if message.password == session.secret {
                Ok(command_of(message))
            } else {
                Err(SessionError::WrongPassword)
            },
        }
    }
}

/// The session after one frame: it stays open exactly when the frame's
/// command was handed on.
pub open spec fn after_frame(session: SessionView, frame: FrameView) -> SessionView {
    SessionView { secret: session.secret, open: screen(session, frame) is Ok }
}

/// The commands that a session hands on while `frames` arrive one after the
/// other.
pub open spec fn forwarded(session: SessionView, frames: Seq<FrameView>) -> Seq<CommandView>
    decreases frames.len(),
{
    if frames.len() == 0 {
        Seq::empty()
    } else {
        let rest = forwarded(after_frame(session, frames[0]), frames.drop_first());
        match screen(session, frames[0]) {
            Ok(command) => seq![command] + rest,
            Err(_) => rest,
        }
    }
}

/// Whether a frame was decoded and carries the secret.
pub open spec fn authentic(frame: FrameView, secret: Seq<char>) -> bool {
    frame matches Ok(message) && message.password == secret
}

/// A session that is over hands nothing on, whatever arrives.
pub proof fn lemma_closed_forwards_nothing(session: SessionView, frames: Seq<FrameView>)
    requires
        !session.open,
    ensures
        forwarded(session, frames) == Seq::<CommandView>::empty(),
    decreases frames.len(),
{
    if frames.len() > 0 {
        lemma_closed_forwards_nothing(after_frame(session, frames[0]), frames.drop_first());
    }
}

/// Every command handed on is the command of the frame at the same place,
/// and that frame carries the secret: the commands handed on are those of
/// the frames that came before the first one that fails.
pub proof fn lemma_forwarded_are_authentic(session: SessionView, frames: Seq<FrameView>, i: int)
    requires
        0 <= i < forwarded(session, frames).len(),
    ensures
        session.open,
        i < frames.len(),
        authentic(frames[i], session.secret),
        forwarded(session, frames)[i] == command_of(frames[i]->Ok_0),
    decreases frames.len(),
{
    if !session.open {
        lemma_closed_forwards_nothing(session, frames);
    } else if frames.len() > 0 {
        let next = after_frame(session, frames[0]);
        let rest = frames.drop_first();
        if screen(session, frames[0]) is Ok {
            if i > 0 {
                lemma_forwarded_are_authentic(next, rest, i - 1);
            }
        } else {
            lemma_closed_forwards_nothing(next, rest);
        }
    }
}

/// Once a frame has failed, nothing at or after its place is handed on. A
/// frame with a password other than the secret is such a frame.
pub proof fn lemma_nothing_after_rejection(session: SessionView, frames: Seq<FrameView>, i: int)
    requires
        0 <= i < frames.len(),
        !authentic(frames[i], session.secret),
    ensures
        forwarded(session, frames).len() <= i,
    decreases frames.len(),
{
    if !session.open {
        lemma_closed_forwards_nothing(session, frames);
    } else {
        let next = after_frame(session, frames[0]);
        let rest = frames.drop_first();
        if i == 0 {
            lemma_closed_forwards_nothing(next, rest);
        } else if screen(session, frames[0]) is Ok {
            lemma_nothing_after_rejection(next, rest, i - 1);
        } else {
            lemma_closed_forwards_nothing(next, rest);
        }
    }
}

/// While every frame carries the secret, every command is handed on and the
/// session stays open.
pub proof fn lemma_authentic_frames_pass(session: SessionView, frames: Seq<FrameView>)
    requires
        session.open,
        forall|i: int| 0 <= i < frames.len() ==> authentic(#[trigger] frames[i], session.secret),
    ensures
        forwarded(session, frames).len() == frames.len(),
    decreases frames.len(),
{
    if frames.len() > 0 {
        let rest = frames.drop_first();
        assert(authentic(frames[0], session.secret));
        assert forall|i: int| 0 <= i < rest.len() implies authentic(
            #[trigger] rest[i],
            session.secret,
        ) by {
            assert(rest[i] == frames[i + 1]);
        }
        lemma_authentic_frames_pass(after_frame(session, frames[0]), rest);
    }
}

/// The commands handed on are exactly those of the frames that come before
/// the first one that fails, in their order.
pub proof fn lemma_forwarded_is_the_clean_prefix(
    session: SessionView,
    frames: Seq<FrameView>,
    n: int,
)
    requires
        session.open,
        0 <= n <= frames.len(),
        forall|i: int| 0 <= i < n ==> authentic(#[trigger] frames[i], session.secret),
        n < frames.len() ==> !authentic(frames[n], session.secret),
    ensures
        forwarded(session, frames) == Seq::new(n as nat, |i: int| command_of(frames[i]->Ok_0)),
    decreases frames.len(),
{
    let expected = Seq::new(n as nat, |i: int| command_of(frames[i]->Ok_0));
    if frames.len() == 0 {
        assert(forwarded(session, frames) =~= expected);
    } else if n == 0 {
        lemma_closed_forwards_nothing(after_frame(session, frames[0]), frames.drop_first());
        assert(forwarded(session, frames) =~= expected);
    } else {
        let rest = frames.drop_first();
        assert(authentic(frames[0], session.secret));
        assert forall|i: int| 0 <= i < n - 1 implies authentic(
            #[trigger] rest[i],
            session.secret,
        ) by {
            assert(rest[i] == frames[i + 1]);
        }
        lemma_forwarded_is_the_clean_prefix(after_frame(session, frames[0]), rest, n - 1);
        assert(forwarded(session, frames) =~= expected);
    }
}

impl Session {
    /// A session that is open and holds `secret` as the shared secret.
    pub fn new(secret: String) -> (session: Session)
        ensures
            session@ == (SessionView { secret: secret@, open: true }),
    {
        Session { secret, open: true }
    }

    /// Whether frames are still taken.
    pub fn is_open(&self) -> (open: bool)
        ensures
            open == self@.open,
    {
        self.open
    }

    /// Takes one frame. `Ok` holds the command to hand on; any `Err` means
    /// that nothing is handed on and that the session is over.
    pub fn accept(&mut self, frame: Frame) -> (outcome: Result<Command, SessionError>)
        ensures
            outcome_view(outcome) == screen(old(self)@, frame_view(frame)),
            final(self)@ == after_frame(old(self)@, frame_view(frame)),
    {
        if !self.open {
            return Err(SessionError::Closed);
        }
        match frame {
            Err(error) => {
                self.open = false;
                Err(SessionError::Decode(error))
            },
            Ok(message) => {
                if authenticate(message.password.as_str(), self.secret.as_str()) {
                    Ok(message.command())
                } else {
                    self.open = false;
                    Err(SessionError::WrongPassword)
                }
            },
        }
    }
}

} // verus!
