//! The periodic step: what happens to a session when its deadline has passed.
//!
//! The caller runs the clock. It asks `poll_for_expired_entries` for the next
//! session that is due, sends what the answer says, and hands the session to
//! `rearm`, which registers it for its next phase or lets it end.

use vstd::prelude::*;
use crate::notice::Notice;
use crate::session::{ChatKind, Session};
use crate::session_state::SessionState;
use crate::state::{State, StoreError};
use crate::state_view::StateView;
use crate::time::BREAK_MILLIS;

verus! {

/// The change that is due for a session whose deadline has passed.
#[derive(Clone, Copy, Debug, PartialEq, Eq, Structural)]
pub enum Step {
    /// Waiting work begins.
    StartPomodoro,
    /// Running work ends, and the break begins.
    EndPomodoro,
    /// A waiting break begins.
    StartBreak,
    /// The break ends, and with it the session.
    EndBreak,
}

/// A session that was due, taken out of the registry.
#[derive(Clone, Debug)]
pub struct Expired {
    /// The session, in the phase whose deadline has passed.
    pub session: Session,
    /// The change that is due for it.
    pub step: Step,
    /// What to send to its conversation, if anything.
    pub notice: Option<Notice>,
}

/// The change that is due for a session in phase `state`.
pub open spec fn step_of(state: SessionState) -> Step {
    match state {
        SessionState::PomodoroWaiting => Step::StartPomodoro,
        SessionState::PomodoroRunning => Step::EndPomodoro,
        SessionState::BreakWaiting => Step::StartBreak,
        SessionState::BreakRunning => Step::EndBreak,
    }
}

/// Whether `notice` is what goes out when the deadline of `session` passes.
/// A break begins in silence, and so does work outside a group.
pub open spec fn is_notice_for(session: Session, notice: Option<Notice>) -> bool {
    match session.state {
        SessionState::PomodoroWaiting => if session.message.chat_kind.is_shared() {
            notice matches Some(n) && session.is_start_notice(n)
        } else {
            notice is None
        },
        SessionState::PomodoroRunning => notice matches Some(n) && session.is_end_notice(n),
        SessionState::BreakWaiting => notice is None,
        SessionState::BreakRunning => notice matches Some(n) && session.is_break_end_notice(n),
    }
}

/// Whether `session` ends when its deadline passes: after its break, and
/// where waiting work is found in a conversation that cannot hold a session.
pub open spec fn is_dropped(session: Session) -> bool {
    session.state == SessionState::BreakRunning || (session.state
        == SessionState::PomodoroWaiting && session.message.chat_kind == ChatKind::Channel)
}

/// The session as it is registered for its next phase. Work that begins keeps
/// its duration; a break lasts five minutes.
pub open spec fn advanced(session: Session) -> Session {
    match session.state {
        SessionState::PomodoroWaiting => session.started(),
        SessionState::PomodoroRunning => session.on_break(),
        SessionState::BreakWaiting => session.on_break(),
        SessionState::BreakRunning => session,
    }
}

/// A session is registered again in the phase that follows its own and in no
/// other, with the same message, owner and participants. A break that begins
/// lasts five minutes.
pub proof fn lemma_advanced_is_next(session: Session)
    ensures
        session.state.next() matches Some(n) ==> advanced(session).state == n,
        advanced(session).message == session.message,
        advanced(session).participants == session.participants,
        advanced(session).creator == session.creator,
        session.wf() ==> advanced(session).wf(),
        session.state != SessionState::PomodoroWaiting && session.state.next() is Some
            ==> advanced(session).duration == BREAK_MILLIS,
{
}

/// The notice for the change that is due for `session`, if one goes out.
pub fn notice_for(session: &Session) -> (r: Option<Notice>)
    ensures
        is_notice_for(*session, r),
{
    match session.state {
        SessionState::PomodoroWaiting => {
            if session.message.chat_kind.shared() {
                Some(session.notify_participants_on_start())
            } else {
                None
            }
        },
        SessionState::PomodoroRunning => Some(session.notify_participants_on_end()),
        SessionState::BreakWaiting => None,
        SessionState::BreakRunning => Some(session.notify_participants_on_break_end()),
    }
}

/// The change that is due for `session`.
pub fn due_step(session: &Session) -> (r: Step)
    ensures
        r == step_of(session.state),
{
    match session.state {
        SessionState::PomodoroWaiting => Step::StartPomodoro,
        SessionState::PomodoroRunning => Step::EndPomodoro,
        SessionState::BreakWaiting => Step::StartBreak,
        SessionState::BreakRunning => Step::EndBreak,
    }
}

/// Takes the session that is due first out of `state`, if its deadline has
/// been reached at `now`, and says which change is due for it and what to
/// send. `None` means that nothing is due yet.
pub fn poll_for_expired_entries(state: &mut State, now: u64) -> (r: Option<Expired>)
    requires
        old(state)@.wf(),
    ensures
        final(state)@.wf(),
        match r {
            Some(e) => {
                let i = old(state)@.earliest();
                &&& old(state)@.is_earliest(i)
                &&& old(state)@.expirations[i].deadline <= now
                &&& e.session == old(state)@.entries[i]
                &&& e.session.wf()
                &&& e.step == step_of(e.session.state)
                &&& is_notice_for(e.session, e.notice)
                &&& final(state)@ == old(state)@.without(i)
                &&& !final(state)@.has(e.session.key())
                &&& !final(state)@.has_deadline(e.session.key())
            },
            None => {
                &&& final(state)@ == old(state)@
                &&& forall|j: int|
                    0 <= j < old(state)@.expirations.len() ==> now < (
                    #[trigger] old(state)@.expirations[j]).deadline
            },
        },
{
    match state.pop_expired(now) {
        Some(session) => {
            let step = due_step(&session);
            let notice = notice_for(&session);
            Some(Expired { session, step, notice })
        },
        None => None,
    }
}

/// Whether `after` and `r` are what `rearm` leaves of `before` when it is
/// handed `session` at `now`.
///
/// A session that ends is let go, with `Ok(false)`. Any other is registered
/// in its next phase, due when that phase's duration has passed from `now`,
/// with `Ok(true)`; unless its key is taken, which gives `AlreadyExists`. The
/// registry changes in the second case only.
pub open spec fn rearmed(
    before: StateView,
    after: StateView,
    session: Session,
    now: u64,
    r: Result<bool, StoreError>,
) -> bool {
    if is_dropped(session) {
        r == Ok::<bool, StoreError>(false) && after == before
    } else if before.has(session.key()) {
        r == Err::<bool, StoreError>(StoreError::AlreadyExists) && after == before
    } else {
        r == Ok::<bool, StoreError>(true) && after == before.pushed(
            advanced(session),
            (now + advanced(session).duration) as u64,
        )
    }
}

/// Begins the work of a waiting session that was due: registers it as
/// running, due when its duration has passed from `now`. Returns whether the
/// session is registered; one in a conversation that cannot hold a session is
/// let go.
fn start_pomodoro(state: &mut State, session: Session, now: u64) -> (r: Result<
    bool,
    StoreError,
>)
    requires
        old(state)@.wf(),
        session.wf(),
        session.state == SessionState::PomodoroWaiting,
        now + session.duration <= u64::MAX,
    ensures
        final(state)@.wf(),
        rearmed(old(state)@, final(state)@, session, now, r),
{
    match session.message.chat_kind {
        ChatKind::Channel => Ok(false),
        _ => match state.start_session(session, now) {
            Ok(()) => Ok(true),
            Err(e) => Err(e),
        },
    }
}

/// Ends the work of a session that was due and begins its break: registers
/// it as a running break, due five minutes after `now`.
fn end_pomodoro(state: &mut State, session: Session, now: u64) -> (r: Result<
    bool,
    StoreError,
>)
    requires
        old(state)@.wf(),
        session.wf(),
        session.state == SessionState::PomodoroRunning,
        now + 300_000 <= u64::MAX,
    ensures
        final(state)@.wf(),
        rearmed(old(state)@, final(state)@, session, now, r),
{
    match state.start_break(session, now) {
        Ok(()) => Ok(true),
        Err(e) => Err(e),
    }
}

/// Begins a waiting break that was due: registers it as a running break, due
/// five minutes after `now`.
fn start_break(state: &mut State, session: Session, now: u64) -> (r: Result<
    bool,
    StoreError,
>)
    requires
        old(state)@.wf(),
        session.wf(),
        session.state == SessionState::BreakWaiting,
        now + 300_000 <= u64::MAX,
    ensures
        final(state)@.wf(),
        rearmed(old(state)@, final(state)@, session, now, r),
{
    match state.start_break(session, now) {
        Ok(()) => Ok(true),
        Err(e) => Err(e),
    }
}

/// A session that is registered again is due later than the deadline that was
/// just taken, provided that this deadline had been reached and the new phase
/// has a duration: no session is due again at once.
pub proof fn lemma_rearmed_later(
    before: StateView,
    after: StateView,
    session: Session,
    now: u64,
    taken: u64,
)
    requires
        rearmed(before, after, session, now, Ok(true)),
        taken <= now,
        advanced(session).duration > 0,
        now + advanced(session).duration <= u64::MAX,
    ensures
        after.entries.last() == advanced(session),
        after.expirations.last().key == session.key(),
        after.expirations.last().deadline == now + advanced(session).duration,
        after.expirations.last().deadline > taken,
        session.state.next() == Some(after.entries.last().state),
{
}

/// Moves a session that was due into its next phase: registers it again, or
/// lets it go where it has ended. To be called once the notice for the change
/// has been sent, with the session's message replaced where the notice says
/// so.
pub fn rearm(state: &mut State, session: Session, now: u64) -> (r: Result<bool, StoreError>)
    requires
        old(state)@.wf(),
        session.wf(),
        session.state == SessionState::PomodoroWaiting ==> now + session.duration <= u64::MAX,
        session.state.next() == Some(SessionState::BreakRunning) ==> now + 300_000 <= u64::MAX,
    ensures
        final(state)@.wf(),
        rearmed(old(state)@, final(state)@, session, now, r),
{
    match session.state {
        SessionState::PomodoroWaiting => start_pomodoro(state, session, now),
        SessionState::PomodoroRunning => end_pomodoro(state, session, now),
        SessionState::BreakWaiting => start_break(state, session, now),
        SessionState::BreakRunning => Ok(false),
    }
}

} // verus!
