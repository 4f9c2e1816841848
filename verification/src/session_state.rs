//! The four phases of a session and the order in which they follow each other.

use vstd::prelude::*;

verus! {

/// The phase a session is in.
#[derive(Clone, Copy, Debug, PartialEq, Eq, Structural)]
pub enum SessionState {
    /// A work phase that has been announced and waits for its start time.
    PomodoroWaiting,
    /// A work phase in progress.
    PomodoroRunning,
    /// A break that has been announced and waits for its start time.
    BreakWaiting,
    /// A break in progress; the last phase of every session.
    BreakRunning,
}

impl SessionState {
    /// The phase that follows `self` when its deadline passes, or `None` where
    /// the session ends.
    pub open spec fn next(self) -> Option<SessionState> {
        match self {
            SessionState::PomodoroWaiting => Some(SessionState::PomodoroRunning),
            SessionState::PomodoroRunning => Some(SessionState::BreakRunning),
            SessionState::BreakWaiting => Some(SessionState::BreakRunning),
            SessionState::BreakRunning => None,
        }
    }

    /// How many deadlines a session in this phase still has to pass before it
    /// ends.
    pub open spec fn remaining(self) -> nat {
        match self {
            SessionState::PomodoroWaiting => 3,
            SessionState::PomodoroRunning => 2,
            SessionState::BreakWaiting => 2,
            SessionState::BreakRunning => 1,
        }
    }

    /// The phase that follows this one, `None` after a running break.
    pub fn successor(self) -> (r: Option<SessionState>)
        ensures
            r == self.next(),
    {
        match self {
            SessionState::PomodoroWaiting => Some(SessionState::PomodoroRunning),
            SessionState::PomodoroRunning => Some(SessionState::BreakRunning),
            SessionState::BreakWaiting => Some(SessionState::BreakRunning),
            SessionState::BreakRunning => None,
        }
    }
}

/// A session that starts as waiting work runs, then takes its break, then ends;
/// one that starts as a waiting break takes the break, then ends. Every phase
/// has at most one successor, no phase leads back to a waiting one, and each
/// step brings the end one deadline closer.
pub proof fn lemma_phase_order(s: SessionState)
    ensures
        SessionState::PomodoroWaiting.next() == Some(SessionState::PomodoroRunning),
        SessionState::PomodoroRunning.next() == Some(SessionState::BreakRunning),
        SessionState::BreakRunning.next() == None::<SessionState>,
        SessionState::BreakWaiting.next() == Some(SessionState::BreakRunning),
        s.next() != Some(SessionState::PomodoroWaiting),
        s.next() != Some(SessionState::BreakWaiting),
        s.next() != Some(s),
        s.next() matches Some(t) ==> t.remaining() + 1 == s.remaining(),
        s.next() is None <==> s == SessionState::BreakRunning,
{
}

} // verus!
