//! The registry: every live session together with its pending deadline.
//!
//! Sessions and deadlines are kept in two sequences that are aligned entry by
//! entry, so that a key is in one exactly if it is in the other.

use vstd::prelude::*;
use crate::session::{
    find_user, has_user, lemma_joined_wf, lemma_left_wf, lemma_user_index_unique, user_at,
    Message, Session, User,
};
use crate::session_state::SessionState;
use crate::state_view::{
    keys_in_chat, lemma_changed_wf, lemma_earliest_unique, lemma_index_unique,
    lemma_newest_joined_unique, lemma_newest_waiting_unique, lemma_pushed_wf, lemma_without_wf,
    StateView,
};
use crate::time::BREAK_MILLIS;

verus! {

/// Identifies a session: the conversation and the number of the message that
/// announces the session there.
#[derive(Clone, Copy, Debug, PartialEq, Eq, Hash, Structural)]
pub struct CacheKey {
    /// The conversation.
    pub chat_id: i64,
    /// The message within the conversation.
    pub message_id: u32,
}

impl CacheKey {
    /// The key of message `message_id` in conversation `chat_id`.
    pub fn new(chat_id: i64, message_id: u32) -> (r: CacheKey)
        ensures
            r == (CacheKey { chat_id, message_id }),
    {
        CacheKey { chat_id, message_id }
    }
}

/// Why the registry refused a request.
#[derive(Clone, Copy, Debug, PartialEq, Eq, Structural)]
pub enum StoreError {
    /// A session is already registered under the key.
    AlreadyExists,
    /// No session is registered under the key.
    NotFound,
    /// Only the owner of a session may start it early.
    NotOwner,
    /// The user already takes part in the session.
    AlreadyJoined,
    /// The user takes part in no session of the conversation.
    NotSubscribed,
    /// The conversation has no session that is waiting to begin.
    NoEligibleSession,
    /// The session is not in the phase that the request is for.
    WrongPhase,
    /// Sessions cannot be held in this kind of conversation.
    UnsupportedChat,
}

/// A pending deadline: when the current phase of the session under `key` ends.
#[derive(Clone, Copy, Debug, PartialEq, Eq, Structural)]
pub struct Expiration {
    /// The session the deadline belongs to.
    pub key: CacheKey,
    /// The instant at which the session is due.
    pub deadline: u64,
}

/// What became of a session when a user left it.
#[derive(Clone, Copy, Debug, PartialEq, Eq, Structural)]
pub enum LeaveOutcome {
    /// The session goes on; `owner` owns it now.
    Left { key: CacheKey, owner: i64 },
    /// The last participant left: the session is gone, and its message is to
    /// be deleted.
    Deleted { key: CacheKey },
}

/// The registry of sessions and their pending deadlines.
pub struct State {
    entries: Vec<Session>,
    expirations: Vec<Expiration>,
}

impl View for State {
    type V = StateView;

    closed spec fn view(&self) -> StateView {
        StateView { entries: self.entries@, expirations: self.expirations@ }
    }
}

impl Default for State {
    /// An empty registry.
    fn default() -> (r: State)
        ensures
            r@.wf(),
            r@.entries.len() == 0,
            r@.expirations.len() == 0,
    {
        State::new()
    }
}

impl State {
    /// An empty registry.
    pub fn new() -> (r: State)
        ensures
            r@.wf(),
            r@.entries.len() == 0,
            r@.expirations.len() == 0,
    {
        State { entries: Vec::new(), expirations: Vec::new() }
    }

    /// The number of registered sessions.
    pub fn len(&self) -> (r: usize)
        ensures
            r == self@.entries.len(),
    {
        self.entries.len()
    }

    /// The position of the session registered under `key`, if there is one.
    fn find(&self, key: &CacheKey) -> (r: Option<usize>)
        ensures
            match r {
                Some(i) => self@.at(*key, i as int),
                None => !self@.has(*key),
            },
    {
        let mut i: usize = 0;
        while i < self.entries.len()
            invariant
                i <= self.entries.len(),
                forall|j: int| 0 <= j < i ==> !self@.at(*key, j),
            decreases self.entries.len() - i,
        {
            let m = &self.entries[i].message;
            if m.chat_id == key.chat_id && m.id == key.message_id {
                return Some(i);
            }
            i += 1;
        }
        None
    }

    /// Takes the session at position `i` out, together with its deadline.
    fn take(&mut self, i: usize) -> (r: Session)
        requires
            old(self)@.wf(),
            i < old(self)@.entries.len(),
        ensures
            final(self)@.wf(),
            r == old(self)@.entries[i as int],
            final(self)@ == old(self)@.without(i as int),
            !final(self)@.has(r.key()),
            !final(self)@.has_deadline(r.key()),
    {
        proof {
            lemma_without_wf(self@, i as int);
        }
        let _ = self.expirations.remove(i);
        self.entries.remove(i)
    }

    /// Adds `session`, due at `deadline`.
    fn put(&mut self, session: Session, deadline: u64)
        requires
            old(self)@.wf(),
            session.wf(),
            !old(self)@.has(session.key()),
        ensures
            final(self)@.wf(),
            final(self)@ == old(self)@.pushed(session, deadline),
    {
        proof {
            lemma_pushed_wf(self@, session, deadline);
        }
        let key = session.cache_key();
        self.expirations.push(Expiration { key, deadline });
        self.entries.push(session);
    }

    /// The session registered under `key`, if there is one.
    pub fn session(&self, key: &CacheKey) -> (r: Option<&Session>)
        requires
            self@.wf(),
        ensures
            r is Some <==> self@.has(*key),
            r matches Some(s) ==> *s == self@.session_of(*key),
    {
        match self.find(key) {
            Some(i) => {
                proof {
                    lemma_index_unique(self@, *key, i as int);
                }
                Some(&self.entries[i])
            },
            None => None,
        }
    }

    /// The pending deadline of the session registered under `key`, if there is
    /// one.
    pub fn deadline(&self, key: &CacheKey) -> (r: Option<u64>)
        requires
            self@.wf(),
        ensures
            r is Some <==> self@.has(*key),
            r matches Some(d) ==> d == self@.deadline_of(*key),
    {
        match self.find(key) {
            Some(i) => {
                proof {
                    lemma_index_unique(self@, *key, i as int);
                }
                Some(self.expirations[i].deadline)
            },
            None => None,
        }
    }

    /// Whether a session is registered under `key`: `NotFound` if none is.
    pub fn session_exists(&self, key: &CacheKey) -> (r: Result<(), StoreError>)
        ensures
            r is Ok <==> self@.has(*key),
            r matches Err(e) ==> e == StoreError::NotFound,
    {
        match self.find(key) {
            Some(_) => Ok(()),
            None => Err(StoreError::NotFound),
        }
    }

    /// Whether `user_id` owns the session registered under `key`: `NotFound`
    /// if there is no such session, `NotOwner` if another user owns it.
    pub fn is_owner(&self, key: &CacheKey, user_id: i64) -> (r: Result<(), StoreError>)
        requires
            self@.wf(),
        ensures
            match r {
                Ok(_) => self@.owner_refusal(*key, user_id) is None,
                Err(e) => self@.owner_refusal(*key, user_id) == Some(e),
            },
    {
        match self.find(key) {
            Some(i) => {
                proof {
                    lemma_index_unique(self@, *key, i as int);
                }
                if self.entries[i].creator == user_id {
                    Ok(())
                } else {
                    Err(StoreError::NotOwner)
                }
            },
            None => Err(StoreError::NotFound),
        }
    }

    /// Registers `session` with its start time as deadline, unless a session
    /// is registered under its key already.
    pub fn add_session_to_queue(&mut self, session: Session) -> (r: Result<(), StoreError>)
        requires
            old(self)@.wf(),
            session.wf(),
        ensures
            final(self)@.wf(),
            r is Err <==> old(self)@.has(session.key()),
            match r {
                Ok(_) => final(self)@ == old(self)@.pushed(session, session.start_time),
                Err(e) => e == StoreError::AlreadyExists && final(self)@ == old(self)@,
            },
    {
        let key = session.cache_key();
        match self.find(&key) {
            Some(_) => Err(StoreError::AlreadyExists),
            None => {
                let deadline: u64 = session.start_time;
                self.put(session, deadline);
                Ok(())
            },
        }
    }

    /// Removes the session registered under `key` and discards its deadline.
    pub fn remove_session_from_queue(&mut self, key: &CacheKey) -> (r: Result<(), StoreError>)
        requires
            old(self)@.wf(),
        ensures
            final(self)@.wf(),
            r is Ok <==> old(self)@.has(*key),
            match r {
                Ok(_) => {
                    &&& final(self)@ == old(self)@.without(old(self)@.index_of(*key))
                    &&& !final(self)@.has(*key)
                    &&& !final(self)@.has_deadline(*key)
                },
                Err(e) => e == StoreError::NotFound && final(self)@ == old(self)@,
            },
    {
        match self.find(key) {
            Some(i) => {
                proof {
                    lemma_index_unique(self@, *key, i as int);
                }
                let _ = self.take(i);
                Ok(())
            },
            None => Err(StoreError::NotFound),
        }
    }

    /// Creates a work session for `message`, owned by `creator`, and registers
    /// it. Fails with `AlreadyExists` if the message already stands for a
    /// session, and with `UnsupportedChat` in a conversation that cannot hold
    /// one. In a group the default start is read from the system clock.
    pub fn new_pomodoro(
        &mut self,
        message: Message,
        creator: User,
        start_time: Option<u64>,
        duration: Option<u64>,
        now: u64,
    ) -> (r: Result<(), StoreError>)
        requires
            old(self)@.wf(),
            start_time is None && message.chat_kind.is_shared() ==> now + 300_000 <= u64::MAX,
        ensures
            final(self)@.wf(),
            match r {
                Ok(_) => {
                    let fresh = final(self)@.entries.last();
                    &&& old(self)@.pomodoro_refusal(message) is None
                    &&& final(self)@.entries.len() == old(self)@.entries.len() + 1
                    &&& fresh.is_new_pomodoro(message, creator, start_time, duration, now)
                    &&& final(self)@ == old(self)@.pushed(fresh, fresh.start_time)
                },
                Err(e) => old(self)@.pomodoro_refusal(message) == Some(e) && final(self)@
                    == old(self)@,
            },
    {
        let key = CacheKey::new(message.chat_id, message.id);
        match self.find(&key) {
            Some(_) => Err(StoreError::AlreadyExists),
            None => match Session::new_pomodoro(message, creator, start_time, duration, now) {
                Ok(session) => {
                    let deadline: u64 = session.start_time;
                    let ghost fresh = session;
                    self.put(session, deadline);
                    assert(self@.entries.last() == fresh);
                    Ok(())
                },
                Err(e) => Err(e),
            },
        }
    }

    /// Creates a break for `message`, owned by `creator`, and registers it.
    /// Fails with `AlreadyExists` if the message already stands for a session.
    /// By default the break is due at once, so that the next periodic step
    /// begins it.
    pub fn new_break(
        &mut self,
        message: Message,
        creator: User,
        start_time: Option<u64>,
        duration: Option<u64>,
        now: u64,
    ) -> (r: Result<(), StoreError>)
        requires
            old(self)@.wf(),
        ensures
            final(self)@.wf(),
            r is Err <==> old(self)@.has(
                CacheKey { chat_id: message.chat_id, message_id: message.id },
            ),
            match r {
                Ok(_) => {
                    let fresh = final(self)@.entries.last();
                    &&& final(self)@.entries.len() == old(self)@.entries.len() + 1
                    &&& fresh.is_fresh(
                        SessionState::BreakWaiting,
                        message,
                        creator,
                        now,
                        match start_time {
                            Some(t) => t,
                            None => now,
                        },
                        match duration {
                            Some(d) => d,
                            None => BREAK_MILLIS,
                        },
                    )
                    &&& final(self)@ == old(self)@.pushed(fresh, fresh.start_time)
                },
                Err(e) => e == StoreError::AlreadyExists && final(self)@ == old(self)@,
            },
    {
        let key = CacheKey::new(message.chat_id, message.id);
        match self.find(&key) {
            Some(_) => Err(StoreError::AlreadyExists),
            None => match Session::new_break(message, creator, start_time, duration, now) {
                Ok(session) => {
                    let deadline: u64 = session.start_time;
                    let ghost fresh = session;
                    self.put(session, deadline);
                    assert(self@.entries.last() == fresh);
                    Ok(())
                },
                Err(e) => Err(e),
            },
        }
    }

    /// Begins an early start: takes the waiting session registered under
    /// `key` out of the registry and hands it to the caller, provided that
    /// `user_id` owns it. The caller announces the start and passes the
    /// session to `start_session`, which arms it for its full duration. Until
    /// then no request can reach the session.
    ///
    /// Fails with `NotFound` if there is no such session, with `NotOwner` if
    /// another user owns it, and with `WrongPhase` if it is not waiting; the
    /// registry is then unchanged.
    pub fn start_session_now(&mut self, key: &CacheKey, user_id: i64) -> (r: Result<
        Session,
        StoreError,
    >)
        requires
            old(self)@.wf(),
        ensures
            final(self)@.wf(),
            match r {
                Ok(s) => {
                    &&& old(self)@.start_now_refusal(*key, user_id) is None
                    &&& s == old(self)@.session_of(*key)
                    &&& s.wf()
                    &&& s.key() == *key
                    &&& final(self)@ == old(self)@.without(old(self)@.index_of(*key))
                    &&& !final(self)@.has(*key)
                    &&& !final(self)@.has_deadline(*key)
                },
                Err(e) => old(self)@.start_now_refusal(*key, user_id) == Some(e) && final(self)@
                    == old(self)@,
            },
    {
        match self.find(key) {
            Some(i) => {
                proof {
                    lemma_index_unique(self@, *key, i as int);
                }
                if self.entries[i].creator != user_id {
                    Err(StoreError::NotOwner)
                } else if !self.entries[i].is_waiting() {
                    Err(StoreError::WrongPhase)
                } else {
                    Ok(self.take(i))
                }
            },
            None => Err(StoreError::NotFound),
        }
    }

    /// Begins the work phase of a waiting session and registers it, due when
    /// its full duration has passed from `now`.
    ///
    /// Fails with `WrongPhase` if the session is not waiting work, else with
    /// `AlreadyExists` if a session is registered under its key; the registry
    /// is then unchanged.
    pub fn start_session(&mut self, session: Session, now: u64) -> (r: Result<(), StoreError>)
        requires
            old(self)@.wf(),
            session.wf(),
            now + session.duration <= u64::MAX,
        ensures
            final(self)@.wf(),
            match r {
                Ok(_) => {
                    &&& old(self)@.advance_refusal(session, SessionState::PomodoroRunning) is None
                    &&& final(self)@ == old(self)@.pushed(
                        session.started(),
                        (now + session.duration) as u64,
                    )
                },
                Err(e) => old(self)@.advance_refusal(session, SessionState::PomodoroRunning)
                    == Some(e) && final(self)@ == old(self)@,
            },
    {
        if !session.is_waiting() {
            return Err(StoreError::WrongPhase);
        }
        let key = session.cache_key();
        match self.find(&key) {
            Some(_) => Err(StoreError::AlreadyExists),
            None => {
                let mut session = session;
                session.state = SessionState::PomodoroRunning;
                let deadline: u64 = now + session.duration;
                self.put(session, deadline);
                Ok(())
            },
        }
    }

    /// Begins the break of a session whose work has run, or of a waiting
    /// break, and registers it, due five minutes after `now`.
    ///
    /// Fails with `WrongPhase` if the session is in neither phase, else with
    /// `AlreadyExists` if a session is registered under its key; the registry
    /// is then unchanged.
    pub fn start_break(&mut self, session: Session, now: u64) -> (r: Result<(), StoreError>)
        requires
            old(self)@.wf(),
            session.wf(),
            now + 300_000 <= u64::MAX,
        ensures
            final(self)@.wf(),
            match r {
                Ok(_) => {
                    &&& old(self)@.advance_refusal(session, SessionState::BreakRunning) is None
                    &&& final(self)@ == old(self)@.pushed(
                        session.on_break(),
                        (now + BREAK_MILLIS) as u64,
                    )
                },
                Err(e) => old(self)@.advance_refusal(session, SessionState::BreakRunning) == Some(
                    e,
                ) && final(self)@ == old(self)@,
            },
    {
        if !(session.is_running() || session.is_awaiting_break()) {
            return Err(StoreError::WrongPhase);
        }
        let key = session.cache_key();
        match self.find(&key) {
            Some(_) => Err(StoreError::AlreadyExists),
            None => {
                let mut session = session;
                session.convert_to_break();
                let deadline: u64 = now + session.duration;
                self.put(session, deadline);
                Ok(())
            },
        }
    }

    /// The position of the deadline that is due first, if any is pending.
    fn earliest_index(&self) -> (r: Option<usize>)
        ensures
            r is None <==> self@.expirations.len() == 0,
            r matches Some(i) ==> self@.is_earliest(i as int) && self@.earliest() == i,
    {
        if self.expirations.len() == 0 {
            return None;
        }
        let mut best: usize = 0;
        let mut i: usize = 1;
        while i < self.expirations.len()
            invariant
                best < i <= self.expirations.len(),
                forall|j: int|
                    0 <= j < i ==> self@.expirations[best as int].deadline <= (
                    #[trigger] self@.expirations[j]).deadline,
                forall|j: int|
                    0 <= j < best ==> self@.expirations[best as int].deadline < (
                    #[trigger] self@.expirations[j]).deadline,
            decreases self.expirations.len() - i,
        {
            if self.expirations[i].deadline < self.expirations[best].deadline {
                best = i;
            }
            i += 1;
        }
        proof {
            lemma_earliest_unique(self@, best as int);
        }
        Some(best)
    }

    /// The earliest pending deadline, `None` if the registry is empty.
    pub fn next_deadline(&self) -> (r: Option<u64>)
        ensures
            r is None <==> self@.expirations.len() == 0,
            r matches Some(d) ==> self@.is_earliest(self@.earliest()) && d
                == self@.expirations[self@.earliest()].deadline,
    {
        match self.earliest_index() {
            Some(i) => Some(self.expirations[i].deadline),
            None => None,
        }
    }

    /// Takes out the session whose deadline is due first, if that deadline has
    /// been reached at `now`. The session leaves the registry together with
    /// its deadline: no request can reach it until it is registered again.
    /// Nothing is taken before its deadline.
    pub fn pop_expired(&mut self, now: u64) -> (r: Option<Session>)
        requires
            old(self)@.wf(),
        ensures
            final(self)@.wf(),
            match r {
                Some(s) => {
                    let i = old(self)@.earliest();
                    &&& old(self)@.is_earliest(i)
                    &&& old(self)@.expirations[i].deadline <= now
                    &&& s == old(self)@.entries[i]
                    &&& s.wf()
                    &&& final(self)@ == old(self)@.without(i)
                    &&& !final(self)@.has(s.key())
                    &&& !final(self)@.has_deadline(s.key())
                },
                None => {
                    &&& final(self)@ == old(self)@
                    &&& forall|j: int|
                        0 <= j < old(self)@.expirations.len() ==> now < (
                        #[trigger] old(self)@.expirations[j]).deadline
                },
            },
    {
        match self.earliest_index() {
            Some(i) => {
                if self.expirations[i].deadline <= now {
                    Some(self.take(i))
                } else {
                    None
                }
            },
            None => None,
        }
    }

    /// Adds `user` to the participants of the session at position `i`.
    fn join_at(&mut self, i: usize, user: User)
        requires
            old(self)@.wf(),
            i < old(self)@.entries.len(),
            !has_user(old(self)@.entries[i as int].participants@, user.id),
        ensures
            final(self)@.wf(),
            old(self)@.changed_at(final(self)@, i as int),
            old(self)@.entries[i as int].joined_by(final(self)@.entries[i as int], user),
    {
        self.entries[i].participants.push(user);
        proof {
            lemma_joined_wf(old(self)@.entries[i as int], self@.entries[i as int], user);
            lemma_changed_wf(old(self)@, self@, i as int);
        }
    }

    /// The position of the waiting session of conversation `chat_id` whose
    /// message has the highest number, if any session waits there.
    fn newest_waiting_index(&self, chat_id: i64) -> (r: Option<usize>)
        requires
            self@.wf(),
        ensures
            r is None <==> !self@.has_waiting(chat_id),
            r matches Some(i) ==> self@.is_newest_waiting(chat_id, i as int)
                && self@.newest_waiting(chat_id) == i,
    {
        let mut best: Option<usize> = None;
        let mut i: usize = 0;
        while i < self.entries.len()
            invariant
                i <= self.entries.len(),
                match best {
                    None => forall|j: int| 0 <= j < i ==> !self@.waiting_in(chat_id, j),
                    Some(b) => b < i && self@.waiting_in(chat_id, b as int) && forall|j: int|
                        0 <= j < i && #[trigger] self@.waiting_in(chat_id, j)
                            ==> self@.entries[j].message.id <= self@.entries[b as int].message.id,
                },
            decreases self.entries.len() - i,
        {
            let s = &self.entries[i];
            if s.message.chat_id == chat_id && s.is_waiting() {
                let better = match best {
                    None => true,
                    Some(b) => self.entries[b].message.id < s.message.id,
                };
                if better {
                    best = Some(i);
                }
            }
            i += 1;
        }
        proof {
            if let Some(b) = best {
                lemma_newest_waiting_unique(self@, chat_id, b as int);
            }
        }
        best
    }

    /// The position of the session with the highest message number among
    /// those of conversation `chat_id` in which `user_id` takes part, and the
    /// user's position among its participants.
    fn newest_joined_index(&self, chat_id: i64, user_id: i64) -> (r: Option<(usize, usize)>)
        requires
            self@.wf(),
        ensures
            r is None <==> !self@.has_joined(chat_id, user_id),
            r matches Some((i, p)) ==> self@.is_newest_joined(chat_id, user_id, i as int)
                && self@.newest_joined(chat_id, user_id) == i && user_at(
                self@.entries[i as int].participants@,
                user_id,
                p as int,
            ),
    {
        let mut best: Option<(usize, usize)> = None;
        let mut i: usize = 0;
        while i < self.entries.len()
            invariant
                i <= self.entries.len(),
                match best {
                    None => forall|j: int| 0 <= j < i ==> !self@.joined_in(chat_id, user_id, j),
                    Some((b, p)) => b < i && self@.joined_in(chat_id, user_id, b as int)
                        && user_at(self@.entries[b as int].participants@, user_id, p as int)
                        && forall|j: int|
                        0 <= j < i && #[trigger] self@.joined_in(chat_id, user_id, j)
                            ==> self@.entries[j].message.id <= self@.entries[b as int].message.id,
                },
            decreases self.entries.len() - i,
        {
            let s = &self.entries[i];
            if s.message.chat_id == chat_id {
                if let Some(p) = find_user(&s.participants, user_id) {
                    let better = match best {
                        None => true,
                        Some((b, _)) => self.entries[b].message.id < s.message.id,
                    };
                    if better {
                        best = Some((i, p));
                    }
                }
            }
            i += 1;
        }
        proof {
            if let Some((b, _)) = best {
                lemma_newest_joined_unique(self@, chat_id, user_id, b as int);
            }
        }
        best
    }

    /// Removes the participant at position `p` of the session at position
    /// `i`, and the session itself if nobody is left.
    fn leave_at(&mut self, i: usize, p: usize, user_id: i64) -> (r: LeaveOutcome)
        requires
            old(self)@.wf(),
            i < old(self)@.entries.len(),
            user_at(old(self)@.entries[i as int].participants@, user_id, p as int),
        ensures
            final(self)@.wf(),
            old(self)@.after_leave(final(self)@, i as int, user_id, r),
    {
        let key = self.entries[i].cache_key();
        if self.entries[i].participants.len() == 1 {
            let _ = self.take(i);
            LeaveOutcome::Deleted { key }
        } else {
            proof {
                lemma_user_index_unique(self@.entries[i as int].participants@, user_id, p as int);
            }
            let _ = self.entries[i].participants.remove(p);
            if self.entries[i].creator == user_id {
                let owner: i64 = self.entries[i].participants[0].id;
                self.entries[i].creator = owner;
            }
            proof {
                lemma_left_wf(old(self)@.entries[i as int], self@.entries[i as int], user_id);
                lemma_changed_wf(old(self)@, self@, i as int);
            }
            LeaveOutcome::Left { key, owner: self.entries[i].creator }
        }
    }

    /// The key of the session that a user who asks to join in conversation
    /// `chat_id` is meant to join: of the sessions there that wait to begin,
    /// the one whose message has the highest number.
    pub fn newest_session_in_chat(&self, chat_id: i64) -> (r: Option<CacheKey>)
        requires
            self@.wf(),
        ensures
            r is Some <==> self@.has_waiting(chat_id),
            r matches Some(k) ==> k == self@.entries[self@.newest_waiting(chat_id)].key(),
    {
        match self.newest_waiting_index(chat_id) {
            Some(i) => Some(self.entries[i].cache_key()),
            None => None,
        }
    }

    /// Adds `user` to the newest waiting session of conversation `chat_id` and
    /// returns that session's key.
    ///
    /// Fails with `NoEligibleSession` if no session waits there, and with
    /// `AlreadyJoined` if the user takes part in that session already; the
    /// registry is then unchanged.
    pub fn join_latest_session(&mut self, chat_id: i64, user: User) -> (r: Result<
        CacheKey,
        StoreError,
    >)
        requires
            old(self)@.wf(),
        ensures
            final(self)@.wf(),
            match r {
                Ok(k) => {
                    let i = old(self)@.newest_waiting(chat_id);
                    &&& old(self)@.join_refusal(chat_id, user.id) is None
                    &&& k == old(self)@.entries[i].key()
                    &&& old(self)@.after_join(final(self)@, i, user)
                },
                Err(e) => old(self)@.join_refusal(chat_id, user.id) == Some(e) && final(self)@
                    == old(self)@,
            },
    {
        match self.newest_waiting_index(chat_id) {
            Some(i) => {
                if find_user(&self.entries[i].participants, user.id).is_some() {
                    Err(StoreError::AlreadyJoined)
                } else {
                    let key = self.entries[i].cache_key();
                    self.join_at(i, user);
                    Ok(key)
                }
            },
            None => Err(StoreError::NoEligibleSession),
        }
    }

    /// Adds `user` to the session registered under `key`, whatever its phase.
    ///
    /// Fails with `NotFound` if there is no such session, and with
    /// `AlreadyJoined` if the user takes part in it already; the registry is
    /// then unchanged.
    pub fn add_participant(&mut self, key: &CacheKey, user: User) -> (r: Result<(), StoreError>)
        requires
            old(self)@.wf(),
        ensures
            final(self)@.wf(),
            match r {
                Ok(_) => {
                    &&& old(self)@.add_refusal(*key, user.id) is None
                    &&& old(self)@.after_join(final(self)@, old(self)@.index_of(*key), user)
                },
                Err(e) => old(self)@.add_refusal(*key, user.id) == Some(e) && final(self)@
                    == old(self)@,
            },
    {
        match self.find(key) {
            Some(i) => {
                proof {
                    lemma_index_unique(self@, *key, i as int);
                }
                if find_user(&self.entries[i].participants, user.id).is_some() {
                    Err(StoreError::AlreadyJoined)
                } else {
                    self.join_at(i, user);
                    Ok(())
                }
            },
            None => Err(StoreError::NotFound),
        }
    }

    /// Removes `user_id` from the session of conversation `chat_id` that has
    /// the highest message number among those in which the user takes part,
    /// whatever its phase. If the owner leaves, the participant who joined
    /// earliest of those who stay owns the session. If nobody stays, the
    /// session is removed together with its deadline.
    ///
    /// Fails with `NotSubscribed` if the user takes part in no session of the
    /// conversation; the registry is then unchanged.
    pub fn leave_latest_session(&mut self, chat_id: i64, user_id: i64) -> (r: Result<
        LeaveOutcome,
        StoreError,
    >)
        requires
            old(self)@.wf(),
        ensures
            final(self)@.wf(),
            r is Ok <==> old(self)@.has_joined(chat_id, user_id),
            match r {
                Ok(outcome) => old(self)@.after_leave(
                    final(self)@,
                    old(self)@.newest_joined(chat_id, user_id),
                    user_id,
                    outcome,
                ),
                Err(e) => e == StoreError::NotSubscribed && final(self)@ == old(self)@,
            },
    {
        match self.newest_joined_index(chat_id, user_id) {
            Some((i, p)) => Ok(self.leave_at(i, p, user_id)),
            None => Err(StoreError::NotSubscribed),
        }
    }

    /// Removes `user_id` from the session registered under `key`, as
    /// `leave_latest_session` does for the session it selects.
    ///
    /// Fails with `NotFound` if there is no such session, and with
    /// `NotSubscribed` if the user does not take part in it; the registry is
    /// then unchanged.
    pub fn remove_participant(&mut self, key: &CacheKey, user_id: i64) -> (r: Result<
        LeaveOutcome,
        StoreError,
    >)
        requires
            old(self)@.wf(),
        ensures
            final(self)@.wf(),
            match r {
                Ok(outcome) => {
                    &&& old(self)@.remove_refusal(*key, user_id) is None
                    &&& old(self)@.after_leave(
                        final(self)@,
                        old(self)@.index_of(*key),
                        user_id,
                        outcome,
                    )
                },
                Err(e) => old(self)@.remove_refusal(*key, user_id) == Some(e) && final(self)@
                    == old(self)@,
            },
    {
        match self.find(key) {
            Some(i) => {
                proof {
                    lemma_index_unique(self@, *key, i as int);
                }
                match find_user(&self.entries[i].participants, user_id) {
                    Some(p) => Ok(self.leave_at(i, p, user_id)),
                    None => Err(StoreError::NotSubscribed),
                }
            },
            None => Err(StoreError::NotFound),
        }
    }

    /// The keys of the sessions of conversation `chat_id`, in the order of
    /// their registration.
    pub fn sessions_in_chat(&self, chat_id: i64) -> (r: Vec<CacheKey>)
        ensures
            r@ == keys_in_chat(self@.entries, chat_id),
    {
        let mut keys: Vec<CacheKey> = Vec::new();
        let mut i: usize = 0;
        while i < self.entries.len()
            invariant
                i <= self.entries.len(),
                keys@ == keys_in_chat(self@.entries.take(i as int), chat_id),
            decreases self.entries.len() - i,
        {
            proof {
                let next = self@.entries.take(i + 1);
                assert(next.drop_last() == self@.entries.take(i as int));
                assert(next.last() == self@.entries[i as int]);
            }
            if self.entries[i].message.chat_id == chat_id {
                keys.push(self.entries[i].cache_key());
            }
            i += 1;
        }
        proof {
            assert(self@.entries.take(i as int) == self@.entries);
        }
        keys
    }
}

} // verus!
