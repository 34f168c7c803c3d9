//! The decisions of a bus session: starting and stopping it, the queue of
//! frames waiting to be sent, and what each receive outcome does.
//!
//! The loop itself (opening the transport, sending, receiving with a bounded
//! wait) is run by the caller, which hands each outcome to these functions.

use crate::frame::{Frame, FrameView};
use crate::table::FrameTable;
use std::collections::VecDeque;
use vstd::prelude::*;

verus! {

/// Where a session stands.
#[derive(Clone, Copy, Debug, PartialEq, Eq, Structural)]
pub enum SessionState {
    /// No loop runs.
    Idle,
    /// The loop runs.
    Running,
    /// A stop was asked for; the loop ends at its next check.
    ClosingRequested,
}

/// A request the session cannot take in its current state, or a transport
/// that would not open.
#[derive(Clone, Copy, Debug, PartialEq, Eq, Structural)]
pub enum SessionError {
    /// `start` while a loop already runs.
    AlreadyRunning,
    /// The transport did not open; the session stays idle.
    OpenFailed,
    /// `stop` while no loop runs.
    NotRunning,
}

/// What one bounded receive gave.
#[derive(Debug)]
pub enum ReceiveOutcome {
    /// A frame, with its arrival time in microseconds.
    Received(Frame, u128),
    /// Nothing arrived within the wait.
    TimedOut,
    /// The transport failed.
    Failed,
}

/// Whether the loop goes on.
#[derive(Clone, Copy, Debug, PartialEq, Eq, Structural)]
pub enum LoopControl {
    Continue,
    Exit,
}

/// The state after `stop`: a running loop is asked to close; any other
/// state is left as it is.
pub open spec fn after_stop(s: SessionState) -> SessionState {
    if s == SessionState::Running {
        SessionState::ClosingRequested
    } else {
        s
    }
}

/// The state after the loop checks for a close request.
pub open spec fn after_closure_check(s: SessionState) -> SessionState {
    if s == SessionState::ClosingRequested {
        SessionState::Idle
    } else {
        s
    }
}

/// A loop runs in this state.
pub open spec fn alive(s: SessionState) -> bool {
    s != SessionState::Idle
}

/// A session's state and the frames waiting to be sent, oldest first.
#[derive(Debug)]
pub struct BusSession {
    pub state: SessionState,
    pub outgoing: VecDeque<Frame>,
}

pub ghost struct SessionView {
    pub state: SessionState,
    pub outgoing: Seq<FrameView>,
}

impl View for BusSession {
    type V = SessionView;

    open spec fn view(&self) -> SessionView {
        SessionView {
            state: self.state,
            outgoing: self.outgoing@.map_values(|f: Frame| f@),
        }
    }
}

impl BusSession {
    /// An idle session with nothing queued.
    pub fn new() -> (r: BusSession)
        ensures
            r@.state == SessionState::Idle,
            r@.outgoing == Seq::<FrameView>::empty(),
    {
        let r = BusSession { state: SessionState::Idle, outgoing: VecDeque::new() };
        assert(r@.outgoing =~= Seq::<FrameView>::empty());
        r
    }

    /// Starts the loop once the caller has tried to open the transport. An
    /// already running session refuses; a transport that did not open leaves
    /// the session idle.
    pub fn start(&mut self, transport_opened: bool) -> (r: Result<(), SessionError>)
        ensures
            old(self).state != SessionState::Idle ==> r == Err::<(), SessionError>(
                SessionError::AlreadyRunning,
            ) && final(self)@ == old(self)@,
            old(self).state == SessionState::Idle && !transport_opened ==> r == Err::<
                (),
                SessionError,
            >(SessionError::OpenFailed) && final(self)@ == old(self)@,
            old(self).state == SessionState::Idle && transport_opened ==> r == Ok::<(), SessionError>(())
                && final(self)@ == (SessionView { state: SessionState::Running, ..old(self)@ }),
    {
        if self.state != SessionState::Idle {
            Err(SessionError::AlreadyRunning)
        } else if !transport_opened {
            Err(SessionError::OpenFailed)
        } else {
            self.state = SessionState::Running;
            Ok(())
        }
    }

    /// Asks a running loop to close. Stopping a session whose loop does not
    /// run is refused and changes nothing.
    pub fn stop(&mut self) -> (r: Result<(), SessionError>)
        ensures
            final(self)@ == (SessionView { state: after_stop(old(self).state), ..old(self)@ }),
            r is Ok <==> old(self).state == SessionState::Running,
            r is Err ==> r == Err::<(), SessionError>(SessionError::NotRunning),
    {
        if self.state == SessionState::Running {
            self.state = SessionState::ClosingRequested;
            Ok(())
        } else {
            Err(SessionError::NotRunning)
        }
    }

    /// Whether a loop runs and has not ended.
    pub fn is_alive(&self) -> (r: bool)
        ensures
            r == alive(self.state),
    {
        self.state != SessionState::Idle
    }

    /// Queues a frame to be sent; frames queued while idle wait for the next
    /// start.
    pub fn enqueue_send(&mut self, frame: Frame)
        ensures
            final(self)@ == (SessionView {
                outgoing: old(self)@.outgoing.push(frame@),
                ..old(self)@
            }),
    {
        let ghost before = self@;
        self.outgoing.push_back(frame);
        assert(self@.outgoing =~= before.outgoing.push(frame@));
    }

    /// Hands over every queued frame, oldest first, leaving the queue empty.
    pub fn take_outgoing(&mut self) -> (r: VecDeque<Frame>)
        ensures
            r@.map_values(|f: Frame| f@) == old(self)@.outgoing,
            final(self)@ == (SessionView { outgoing: Seq::empty(), ..old(self)@ }),
    {
        let mut taken: VecDeque<Frame> = VecDeque::new();
        std::mem::swap(&mut taken, &mut self.outgoing);
        assert(self@.outgoing =~= Seq::<FrameView>::empty());
        taken
    }

    /// The loop's check for a close request: a requested close makes the
    /// session idle and ends the loop.
    pub fn closure_check(&mut self) -> (r: LoopControl)
        ensures
            final(self)@ == (SessionView {
                state: after_closure_check(old(self).state),
                ..old(self)@
            }),
            r == LoopControl::Exit <==> old(self).state == SessionState::ClosingRequested,
    {
        if self.state == SessionState::ClosingRequested {
            self.state = SessionState::Idle;
            LoopControl::Exit
        } else {
            LoopControl::Continue
        }
    }

    /// What the loop does with one receive outcome: a frame goes into the
    /// table, a timeout goes round again, a transport failure ends the loop
    /// and makes the session idle.
    pub fn on_receive(&mut self, outcome: ReceiveOutcome, table: &mut FrameTable) -> (r:
        LoopControl)
        requires
            old(table).wf(),
            outcome matches ReceiveOutcome::Received(f, t) ==> f@.wf() && old(table).accepts(
                f.id,
                t,
            ),
        ensures
            final(table).wf(),
            match outcome {
                ReceiveOutcome::Received(f, t) => {
                    &&& r == LoopControl::Continue
                    &&& final(self)@ == old(self)@
                    &&& !old(table).holds(f.id) ==> final(table)@ == old(table)@.push(
                        crate::table::first_arrival(f@, t),
                    )
                    &&& forall|i: int|
                        0 <= i < old(table)@.len() && (#[trigger] old(table)@[i]).frame.id == f.id
                            ==> final(table)@ == old(table)@.update(
                            i,
                            crate::table::next_arrival(old(table)@[i], f@, t),
                        )
                },
                ReceiveOutcome::TimedOut => r == LoopControl::Continue && final(self)@ == old(
                    self,
                )@ && final(table)@ == old(table)@,
                ReceiveOutcome::Failed => r == LoopControl::Exit && final(self)@ == (SessionView {
                    state: SessionState::Idle,
                    ..old(self)@
                }) && final(table)@ == old(table)@,
            },
    {
        match outcome {
            ReceiveOutcome::Received(frame, t) => {
                table.upsert(frame, t);
                LoopControl::Continue
            },
            ReceiveOutcome::TimedOut => LoopControl::Continue,
            ReceiveOutcome::Failed => {
                self.state = SessionState::Idle;
                LoopControl::Exit
            },
        }
    }
}

/// A stop asked of a session whose loop does not run changes nothing, and
/// once a stop is asked of a running loop and the loop has made its check,
/// the session is no longer alive.
pub proof fn lemma_stop_ends_session(s: SessionState)
    ensures
        s != SessionState::Running ==> after_stop(s) == s,
        s == SessionState::Running ==> !alive(after_closure_check(after_stop(s))),
{
}

} // verus!
