//! A session: who takes part, which phase it is in, and when that phase ends.

use vstd::prelude::*;
use crate::session_state::SessionState;
use crate::state::{CacheKey, StoreError};
use crate::time::{instant_at_minute, slot_delay, BREAK_MILLIS, POMODORO_MILLIS};

verus! {

/// The kind of conversation a message belongs to.
#[derive(Clone, Copy, Debug, PartialEq, Eq, Structural)]
pub enum ChatKind {
    /// A conversation between one user and the service.
    Private,
    /// A group of users.
    Group,
    /// A large group of users.
    Supergroup,
    /// A broadcast channel; sessions cannot be held there.
    Channel,
}

impl ChatKind {
    /// Whether the conversation has several members, so that a roster of
    /// participants is worth showing.
    pub open spec fn is_shared(self) -> bool {
        self == ChatKind::Group || self == ChatKind::Supergroup
    }

    /// Whether the conversation has several members.
    pub fn shared(self) -> (r: bool)
        ensures
            r == self.is_shared(),
    {
        match self {
            ChatKind::Group => true,
            ChatKind::Supergroup => true,
            _ => false,
        }
    }
}

/// A user of the chat service, known by a numeric identity.
#[derive(Clone, Debug)]
pub struct User {
    /// The identity; two users are the same exactly if their ids are equal.
    pub id: i64,
    /// The first name, shown where the user has no username.
    pub first_name: String,
    /// The username, if the user has chosen one.
    pub username: Option<String>,
}

/// The message that announces a session and shows its current status.
#[derive(Clone, Debug)]
pub struct Message {
    /// The message's number within its conversation.
    pub id: u32,
    /// The conversation the message was sent to.
    pub chat_id: i64,
    /// The kind of that conversation.
    pub chat_kind: ChatKind,
    /// The text of the message, if it is a text message.
    pub text: Option<String>,
}

/// One timed work or break session.
#[derive(Clone, Debug)]
pub struct Session {
    /// The phase the session is in.
    pub state: SessionState,
    /// The message that stands for the session in its conversation.
    pub message: Message,
    /// The identity of the user who owns the session.
    pub creator: i64,
    /// The users who take part, in the order in which they joined.
    pub participants: Vec<User>,
    /// When the session was created.
    pub creation_time: u64,
    /// When a waiting session is due to begin.
    pub start_time: u64,
    /// The length of the current phase, in milliseconds.
    pub duration: u64,
}

/// Whether `users[i]` exists and has identity `id`.
pub open spec fn user_at(users: Seq<User>, id: i64, i: int) -> bool {
    0 <= i < users.len() && users[i].id == id
}

/// Whether some user in `users` has identity `id`.
pub open spec fn has_user(users: Seq<User>, id: i64) -> bool {
    exists|i: int| user_at(users, id, i)
}

/// Whether no identity occurs twice in `users`.
pub open spec fn distinct_ids(users: Seq<User>) -> bool {
    forall|i: int, j: int| 0 <= i < j < users.len() ==> users[i].id != users[j].id
}

/// The name by which a user is addressed: the username, or the first name where
/// there is none.
pub open spec fn display_name(user: User) -> Seq<char> {
    match user.username {
        Some(name) => name@,
        None => user.first_name@,
    }
}

/// The users' names, each preceded by a space and an at sign.
pub open spec fn usernames_text(users: Seq<User>) -> Seq<char>
    decreases users.len(),
{
    if users.len() == 0 {
        Seq::<char>::empty()
    } else {
        usernames_text(users.drop_last()) + " @"@ + display_name(users.last())
    }
}

/// The position in `users` of the user with identity `id`.
pub open spec fn user_index(users: Seq<User>, id: i64) -> int {
    choose|i: int| user_at(users, id, i)
}

/// Where no identity occurs twice, a user is found at one position only.
pub proof fn lemma_user_index_unique(users: Seq<User>, id: i64, i: int)
    requires
        distinct_ids(users),
        user_at(users, id, i),
    ensures
        has_user(users, id),
        user_index(users, id) == i,
{
    let c = user_index(users, id);
    assert(user_at(users, id, c));
    if c < i {
        assert(users[c].id != users[i].id);
    } else if i < c {
        assert(users[i].id != users[c].id);
    }
}

/// The position of the user with identity `id`, if there is one.
pub fn find_user(users: &Vec<User>, id: i64) -> (r: Option<usize>)
    ensures
        match r {
            Some(i) => user_at(users@, id, i as int),
            None => !has_user(users@, id),
        },
{
    let mut i: usize = 0;
    while i < users.len()
        invariant
            i <= users.len(),
            forall|j: int| 0 <= j < i ==> !user_at(users@, id, j),
        decreases users.len() - i,
    {
        if users[i].id == id {
            return Some(i);
        }
        i += 1;
    }
    None
}

impl User {
    /// The name by which the user is addressed.
    pub fn name(&self) -> (r: &String)
        ensures
            r@ == display_name(*self),
    {
        match &self.username {
            Some(name) => name,
            None => &self.first_name,
        }
    }
}

impl Session {
    /// The key under which the session is registered: its conversation and the
    /// number of its message.
    pub open spec fn key(&self) -> CacheKey {
        CacheKey { chat_id: self.message.chat_id, message_id: self.message.id }
    }

    /// A session always has its owner among its participants, and no user
    /// twice. So it is never without participants.
    pub open spec fn wf(&self) -> bool {
        &&& distinct_ids(self.participants@)
        &&& has_user(self.participants@, self.creator)
    }

    /// Whether `self` is a session just created in phase `state` for `message`
    /// by `creator`, at `now`, to begin at `start` and last `duration`.
    pub open spec fn is_fresh(
        &self,
        state: SessionState,
        message: Message,
        creator: User,
        now: u64,
        start: u64,
        duration: u64,
    ) -> bool {
        &&& self.state == state
        &&& self.message == message
        &&& self.creator == creator.id
        &&& self.participants@ == seq![creator]
        &&& self.creation_time == now
        &&& self.start_time == start
        &&& self.duration == duration
    }

    /// The session once its work phase has begun.
    pub open spec fn started(self) -> Session {
        Session { state: SessionState::PomodoroRunning, ..self }
    }

    /// The session once its break has begun: a running break of five minutes.
    pub open spec fn on_break(self) -> Session {
        Session { state: SessionState::BreakRunning, duration: BREAK_MILLIS, ..self }
    }

    /// Whether `after` is this session with nothing changed but its
    /// participants and its owner.
    pub open spec fn same_but_people(self, after: Session) -> bool {
        &&& after.state == self.state
        &&& after.message == self.message
        &&& after.creation_time == self.creation_time
        &&& after.start_time == self.start_time
        &&& after.duration == self.duration
    }

    /// Whether `after` is this session once `user` has joined it: `user` is
    /// the last of its participants, and nothing else has changed.
    pub open spec fn joined_by(self, after: Session, user: User) -> bool {
        &&& self.same_but_people(after)
        &&& after.creator == self.creator
        &&& after.participants@ == self.participants@.push(user)
    }

    /// Whether `after` is this session once the participant `user_id` has
    /// left it. If the owner left, the participant who joined earliest of
    /// those who stay owns the session.
    pub open spec fn left_by(self, after: Session, user_id: i64) -> bool {
        &&& self.same_but_people(after)
        &&& after.participants@ == self.participants@.remove(
            user_index(self.participants@, user_id),
        )
        &&& after.participants@.len() > 0
        &&& after.creator == if self.creator == user_id {
            after.participants@[0].id
        } else {
            self.creator
        }
    }

    /// Whether `self` is a waiting work session just created for `message` by
    /// `creator` at `now`. Unless `start_time` and `duration` say otherwise,
    /// it lasts 25 minutes and begins at once in a private conversation, and
    /// in a group when the clock, which showed some minute `m` of the hour,
    /// next shows a minute that is a multiple of five.
    pub open spec fn is_new_pomodoro(
        &self,
        message: Message,
        creator: User,
        start_time: Option<u64>,
        duration: Option<u64>,
        now: u64,
    ) -> bool {
        exists|m: u32|
            m < 60 && self.is_fresh(
                SessionState::PomodoroWaiting,
                message,
                creator,
                now,
                match start_time {
                    Some(t) => t,
                    None => if message.chat_kind == ChatKind::Private {
                        now
                    } else {
                        (now + #[trigger] slot_delay(m)) as u64
                    },
                },
                match duration {
                    Some(d) => d,
                    None => POMODORO_MILLIS,
                },
            )
    }

    /// The key under which the session is registered.
    pub fn cache_key(&self) -> (r: CacheKey)
        ensures
            r == self.key(),
    {
        CacheKey { chat_id: self.message.chat_id, message_id: self.message.id }
    }

    /// A work session for `message`, owned by `creator`, in the waiting phase.
    ///
    /// It lasts `duration`, by default 25 minutes. It begins at `start_time`;
    /// by default at once in a private conversation and at `slot` in a group.
    /// Other kinds of conversation cannot hold a session.
    pub fn pomodoro_at(
        message: Message,
        creator: User,
        start_time: Option<u64>,
        duration: Option<u64>,
        now: u64,
        slot: u64,
    ) -> (r: Result<Session, StoreError>)
        ensures
            message.chat_kind == ChatKind::Channel <==> r is Err,
            r matches Err(e) ==> e == StoreError::UnsupportedChat,
            r matches Ok(s) ==> s.wf() && s.is_fresh(
                SessionState::PomodoroWaiting,
                message,
                creator,
                now,
                match start_time {
                    Some(t) => t,
                    None => if message.chat_kind == ChatKind::Private { now } else { slot },
                },
                match duration {
                    Some(d) => d,
                    None => POMODORO_MILLIS,
                },
            ),
    {
        let duration: u64 = match duration {
            Some(d) => d,
            None => POMODORO_MILLIS,
        };
        let default_start: u64 = match message.chat_kind {
            ChatKind::Private => now,
            ChatKind::Group => slot,
            ChatKind::Supergroup => slot,
            ChatKind::Channel => {
                return Err(StoreError::UnsupportedChat);
            },
        };
        let start: u64 = match start_time {
            Some(t) => t,
            None => default_start,
        };
        let id: i64 = creator.id;
        let mut participants: Vec<User> = Vec::new();
        participants.push(creator);
        let session = Session {
            state: SessionState::PomodoroWaiting,
            message,
            creator: id,
            participants,
            creation_time: now,
            start_time: start,
            duration,
        };
        assert(user_at(session.participants@, id, 0));
        Ok(session)
    }

    /// A work session as `pomodoro_at` makes it, with the default start in a
    /// group taken from the system clock: the next minute of the hour that is a
    /// multiple of five. The clock is read only where that default applies.
    pub fn new_pomodoro(
        message: Message,
        creator: User,
        start_time: Option<u64>,
        duration: Option<u64>,
        now: u64,
    ) -> (r: Result<Session, StoreError>)
        requires
            start_time is None && message.chat_kind.is_shared() ==> now + 300_000 <= u64::MAX,
        ensures
            message.chat_kind == ChatKind::Channel <==> r is Err,
            r matches Err(e) ==> e == StoreError::UnsupportedChat,
            r matches Ok(s) ==> s.wf() && s.is_new_pomodoro(
                message,
                creator,
                start_time,
                duration,
                now,
            ),
    {
        let slot: u64 = if start_time.is_none() && message.chat_kind.shared() {
            instant_at_minute(now)
        } else {
            proof {
                assert(slot_delay(0) == 300_000);
            }
            now
        };
        Session::pomodoro_at(message, creator, start_time, duration, now, slot)
    }

    /// A break for `message`, owned by `creator`, in the waiting phase. It
    /// lasts `duration`, by default 5 minutes, and is due at `start_time`, by
    /// default at once.
    pub fn new_break(
        message: Message,
        creator: User,
        start_time: Option<u64>,
        duration: Option<u64>,
        now: u64,
    ) -> (r: Result<Session, StoreError>)
        ensures
            r matches Ok(s) && s.wf() && s.is_fresh(
                SessionState::BreakWaiting,
                message,
                creator,
                now,
                match start_time {
                    Some(t) => t,
                    None => now,
                },
                match duration {
                    Some(d) => d,
                    None => BREAK_MILLIS,
                },
            ),
    {
        let duration: u64 = match duration {
            Some(d) => d,
            None => BREAK_MILLIS,
        };
        let start: u64 = match start_time {
            Some(t) => t,
            None => now,
        };
        let id: i64 = creator.id;
        let mut participants: Vec<User> = Vec::new();
        participants.push(creator);
        let session = Session {
            state: SessionState::BreakWaiting,
            message,
            creator: id,
            participants,
            creation_time: now,
            start_time: start,
            duration,
        };
        assert(user_at(session.participants@, id, 0));
        Ok(session)
    }

    /// Turns the session into a running break of five minutes.
    pub fn convert_to_break(&mut self)
        ensures
            *final(self) == old(self).on_break(),
    {
        self.duration = BREAK_MILLIS;
        self.state = SessionState::BreakRunning;
    }

    /// Whether the work phase is in progress.
    pub fn is_running(&self) -> (r: bool)
        ensures
            r == (self.state == SessionState::PomodoroRunning),
    {
        self.state == SessionState::PomodoroRunning
    }

    /// Whether the break is in progress.
    pub fn is_taking_a_break(&self) -> (r: bool)
        ensures
            r == (self.state == SessionState::BreakRunning),
    {
        self.state == SessionState::BreakRunning
    }

    /// Whether the session is work that has not begun.
    pub fn is_waiting(&self) -> (r: bool)
        ensures
            r == (self.state == SessionState::PomodoroWaiting),
    {
        self.state == SessionState::PomodoroWaiting
    }

    /// Whether the session is a break that has not begun.
    pub fn is_awaiting_break(&self) -> (r: bool)
        ensures
            r == (self.state == SessionState::BreakWaiting),
    {
        self.state == SessionState::BreakWaiting
    }

    /// The names of all participants, each preceded by a space and an at sign,
    /// in the order in which they joined.
    pub fn string_of_subscribed_usernames(&self) -> (r: String)
        ensures
            r@ == usernames_text(self.participants@),
    {
        let mut text = String::new();
        let mut i: usize = 0;
        while i < self.participants.len()
            invariant
                i <= self.participants.len(),
                text@ == usernames_text(self.participants@.take(i as int)),
            decreases self.participants.len() - i,
        {
            proof {
                let next = self.participants@.take(i + 1);
                assert(next.drop_last() == self.participants@.take(i as int));
                assert(next.last() == self.participants@[i as int]);
            }
            text.append(" @");
            text.append(self.participants[i].name().as_str());
            i += 1;
        }
        proof {
            assert(self.participants@.take(i as int) == self.participants@);
        }
        text
    }

    /// The conversation the session belongs to, and its kind.
    pub fn chat(&self) -> (r: (i64, ChatKind))
        ensures
            r == (self.message.chat_id, self.message.chat_kind),
    {
        (self.message.chat_id, self.message.chat_kind)
    }

    /// The message that stands for the session.
    pub fn message(&self) -> (r: &Message)
        ensures
            *r == self.message,
    {
        &self.message
    }
}

/// A user who joins a well-formed session in which the user does not take part
/// leaves it well formed.
pub proof fn lemma_joined_wf(before: Session, after: Session, user: User)
    requires
        before.wf(),
        !has_user(before.participants@, user.id),
        before.joined_by(after, user),
    ensures
        after.wf(),
        has_user(after.participants@, user.id),
{
    let old_users = before.participants@;
    let users = after.participants@;
    assert forall|i: int, j: int| 0 <= i < j < users.len() implies users[i].id != users[j].id by {
        if j == old_users.len() {
            assert(!user_at(old_users, user.id, i));
        } else {
            assert(old_users[i].id != old_users[j].id);
        }
    }
    let c = user_index(old_users, before.creator);
    assert(user_at(old_users, before.creator, c));
    assert(user_at(users, after.creator, c));
    assert(user_at(users, user.id, old_users.len() as int));
}

/// A participant who leaves a well-formed session of several leaves it well
/// formed, and takes part in it no more.
pub proof fn lemma_left_wf(before: Session, after: Session, user_id: i64)
    requires
        before.wf(),
        has_user(before.participants@, user_id),
        before.participants@.len() > 1,
        before.left_by(after, user_id),
    ensures
        after.wf(),
        !has_user(after.participants@, user_id),
{
    let old_users = before.participants@;
    let users = after.participants@;
    let p = user_index(old_users, user_id);
    assert(user_at(old_users, user_id, p));
    assert forall|i: int, j: int| 0 <= i < j < users.len() implies users[i].id != users[j].id by {
        let i2 = if i < p { i } else { i + 1 };
        let j2 = if j < p { j } else { j + 1 };
        assert(users[i] == old_users[i2]);
        assert(users[j] == old_users[j2]);
        assert(old_users[i2].id != old_users[j2].id);
    }
    assert forall|i: int| !user_at(users, user_id, i) by {
        if 0 <= i < users.len() {
            let i2 = if i < p { i } else { i + 1 };
            assert(users[i] == old_users[i2]);
            if i2 < p {
                assert(old_users[i2].id != old_users[p].id);
            } else {
                assert(old_users[p].id != old_users[i2].id);
            }
        }
    }
    if before.creator == user_id {
        assert(user_at(users, after.creator, 0));
    } else {
        let c = user_index(old_users, before.creator);
        assert(user_at(old_users, before.creator, c));
        let c2 = if c < p { c } else { c - 1 };
        assert(users[c2] == old_users[c]);
        assert(user_at(users, after.creator, c2));
    }
}

} // verus!
