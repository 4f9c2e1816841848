//! The registry as contracts see it, and what holds of it.
//!
//! Every operation of the registry is stated over the two sequences of this
//! view. The lemmas say why the operations keep it well formed; the last ones
//! say what that means for the users of the registry.

use vstd::prelude::*;
use crate::session::{
    has_user, lemma_joined_wf, lemma_left_wf, user_at, user_index, ChatKind, Message, Session,
    User,
};
use crate::session_state::SessionState;
use crate::state::{CacheKey, Expiration, LeaveOutcome, StoreError};

verus! {

/// The registry as contracts see it.
pub struct StateView {
    /// The registered sessions, in the order of their registration.
    pub entries: Seq<Session>,
    /// The pending deadlines; the one at position `i` belongs to `entries[i]`.
    pub expirations: Seq<Expiration>,
}

impl StateView {
    /// Sessions and deadlines are paired one to one, no key is registered
    /// twice, and every session is well formed.
    pub open spec fn wf(self) -> bool {
        &&& self.entries.len() == self.expirations.len()
        &&& forall|i: int|
            0 <= i < self.entries.len() ==> (#[trigger] self.entries[i]).wf()
                && self.expirations[i].key == self.entries[i].key()
        &&& forall|i: int, j: int|
            0 <= i < j < self.entries.len() ==> (#[trigger] self.entries[i]).key() != (
            #[trigger] self.entries[j]).key()
    }

    /// Whether the session at position `i` is registered under `key`.
    pub open spec fn at(self, key: CacheKey, i: int) -> bool {
        0 <= i < self.entries.len() && self.entries[i].key() == key
    }

    /// Whether a session is registered under `key`.
    pub open spec fn has(self, key: CacheKey) -> bool {
        exists|i: int| self.at(key, i)
    }

    /// Whether a deadline is pending for `key`.
    pub open spec fn has_deadline(self, key: CacheKey) -> bool {
        exists|i: int|
            0 <= i < self.expirations.len() && (#[trigger] self.expirations[i]).key == key
    }

    /// The position of the session registered under `key`.
    pub open spec fn index_of(self, key: CacheKey) -> int {
        choose|i: int| self.at(key, i)
    }

    /// The registry with `session` added, due at `deadline`.
    pub open spec fn pushed(self, session: Session, deadline: u64) -> StateView {
        StateView {
            entries: self.entries.push(session),
            expirations: self.expirations.push(Expiration { key: session.key(), deadline }),
        }
    }

    /// The registry without the session at position `i` and its deadline.
    pub open spec fn without(self, i: int) -> StateView {
        StateView { entries: self.entries.remove(i), expirations: self.expirations.remove(i) }
    }

    /// The session registered under `key`.
    pub open spec fn session_of(self, key: CacheKey) -> Session {
        self.entries[self.index_of(key)]
    }

    /// The pending deadline of the session registered under `key`.
    pub open spec fn deadline_of(self, key: CacheKey) -> u64 {
        self.expirations[self.index_of(key)].deadline
    }

    /// Why `user_id` is not taken for the owner of the session under `key`;
    /// `None` if the user owns it.
    pub open spec fn owner_refusal(self, key: CacheKey, user_id: i64) -> Option<StoreError> {
        if !self.has(key) {
            Some(StoreError::NotFound)
        } else if self.session_of(key).creator != user_id {
            Some(StoreError::NotOwner)
        } else {
            None
        }
    }

    /// Why `user_id` may not start the session under `key` early; `None` if
    /// the user may: the session is there, the user owns it, and it waits.
    pub open spec fn start_now_refusal(self, key: CacheKey, user_id: i64) -> Option<StoreError> {
        if self.owner_refusal(key, user_id) is Some {
            self.owner_refusal(key, user_id)
        } else if self.session_of(key).state != SessionState::PomodoroWaiting {
            Some(StoreError::WrongPhase)
        } else {
            None
        }
    }

    /// Why a session for `message` cannot be registered as work that waits;
    /// `None` if it can.
    pub open spec fn pomodoro_refusal(self, message: Message) -> Option<StoreError> {
        if self.has(CacheKey { chat_id: message.chat_id, message_id: message.id }) {
            Some(StoreError::AlreadyExists)
        } else if message.chat_kind == ChatKind::Channel {
            Some(StoreError::UnsupportedChat)
        } else {
            None
        }
    }

    /// Why `session` cannot be registered in the phase `wanted`, which is to
    /// follow its own; `None` if it can.
    pub open spec fn advance_refusal(self, session: Session, wanted: SessionState) -> Option<
        StoreError,
    > {
        if session.state.next() != Some(wanted) {
            Some(StoreError::WrongPhase)
        } else if self.has(session.key()) {
            Some(StoreError::AlreadyExists)
        } else {
            None
        }
    }

    /// Why `user_id` cannot join a session of conversation `chat_id`; `None`
    /// if the user can.
    pub open spec fn join_refusal(self, chat_id: i64, user_id: i64) -> Option<StoreError> {
        if !self.has_waiting(chat_id) {
            Some(StoreError::NoEligibleSession)
        } else if has_user(self.entries[self.newest_waiting(chat_id)].participants@, user_id) {
            Some(StoreError::AlreadyJoined)
        } else {
            None
        }
    }

    /// Why `user_id` cannot be added to the session under `key`; `None` if
    /// the user can.
    pub open spec fn add_refusal(self, key: CacheKey, user_id: i64) -> Option<StoreError> {
        if !self.has(key) {
            Some(StoreError::NotFound)
        } else if has_user(self.session_of(key).participants@, user_id) {
            Some(StoreError::AlreadyJoined)
        } else {
            None
        }
    }

    /// Why `user_id` cannot be removed from the session under `key`; `None`
    /// if the user can.
    pub open spec fn remove_refusal(self, key: CacheKey, user_id: i64) -> Option<StoreError> {
        if !self.has(key) {
            Some(StoreError::NotFound)
        } else if !has_user(self.session_of(key).participants@, user_id) {
            Some(StoreError::NotSubscribed)
        } else {
            None
        }
    }

    /// Whether `after` is this registry once `user` has joined the session at
    /// position `i`: nothing else has changed.
    pub open spec fn after_join(self, after: StateView, i: int, user: User) -> bool {
        self.changed_at(after, i) && self.entries[i].joined_by(after.entries[i], user)
    }

    /// Whether position `i` holds the deadline that is due first: none is
    /// earlier, and none before it in the sequence is as early.
    pub open spec fn is_earliest(self, i: int) -> bool {
        &&& 0 <= i < self.expirations.len()
        &&& forall|j: int|
            0 <= j < self.expirations.len() ==> self.expirations[i].deadline <= (
            #[trigger] self.expirations[j]).deadline
        &&& forall|j: int|
            0 <= j < i ==> self.expirations[i].deadline < (#[trigger] self.expirations[j]).deadline
    }

    /// The position of the deadline that is due first.
    pub open spec fn earliest(self) -> int {
        choose|i: int| self.is_earliest(i)
    }

    /// Whether `after` differs from this registry at most in the session at
    /// position `i`: the deadlines and all other sessions are the same.
    pub open spec fn changed_at(self, after: StateView, i: int) -> bool {
        &&& after.expirations == self.expirations
        &&& after.entries.len() == self.entries.len()
        &&& forall|j: int|
            0 <= j < self.entries.len() && j != i ==> #[trigger] after.entries[j]
                == self.entries[j]
    }

    /// Whether `after` and `outcome` are what is left when the participant
    /// `user_id` leaves the session at position `i`. The session of a single
    /// participant is removed with its deadline; any other goes on without
    /// the user.
    pub open spec fn after_leave(
        self,
        after: StateView,
        i: int,
        user_id: i64,
        outcome: LeaveOutcome,
    ) -> bool {
        if self.entries[i].participants@.len() == 1 {
            &&& after == self.without(i)
            &&& outcome == (LeaveOutcome::Deleted { key: self.entries[i].key() })
            &&& !after.has(self.entries[i].key())
            &&& !after.has_deadline(self.entries[i].key())
        } else {
            &&& self.changed_at(after, i)
            &&& self.entries[i].left_by(after.entries[i], user_id)
            &&& outcome == (LeaveOutcome::Left {
                key: self.entries[i].key(),
                owner: after.entries[i].creator,
            })
        }
    }

    /// Whether some session of the conversation waits to begin.
    pub open spec fn has_waiting(self, chat_id: i64) -> bool {
        exists|i: int| self.waiting_in(chat_id, i)
    }

    /// Whether the user takes part in some session of the conversation.
    pub open spec fn has_joined(self, chat_id: i64, user_id: i64) -> bool {
        exists|i: int| self.joined_in(chat_id, user_id, i)
    }

    /// Whether the session at position `i` belongs to conversation `chat_id`
    /// and is work that waits to begin.
    pub open spec fn waiting_in(self, chat_id: i64, i: int) -> bool {
        &&& 0 <= i < self.entries.len()
        &&& self.entries[i].message.chat_id == chat_id
        &&& self.entries[i].state == SessionState::PomodoroWaiting
    }

    /// Whether position `i` holds the waiting session of the conversation whose
    /// message has the highest number.
    pub open spec fn is_newest_waiting(self, chat_id: i64, i: int) -> bool {
        &&& self.waiting_in(chat_id, i)
        &&& forall|j: int| #[trigger]
            self.waiting_in(chat_id, j) ==> self.entries[j].message.id
                <= self.entries[i].message.id
    }

    /// The position of the waiting session of the conversation whose message
    /// has the highest number.
    pub open spec fn newest_waiting(self, chat_id: i64) -> int {
        choose|i: int| self.is_newest_waiting(chat_id, i)
    }

    /// Whether the session at position `i` belongs to conversation `chat_id`
    /// and has the user `user_id` among its participants.
    pub open spec fn joined_in(self, chat_id: i64, user_id: i64, i: int) -> bool {
        &&& 0 <= i < self.entries.len()
        &&& self.entries[i].message.chat_id == chat_id
        &&& has_user(self.entries[i].participants@, user_id)
    }

    /// Whether position `i` holds the session with the highest message number
    /// among those of the conversation in which the user takes part.
    pub open spec fn is_newest_joined(self, chat_id: i64, user_id: i64, i: int) -> bool {
        &&& self.joined_in(chat_id, user_id, i)
        &&& forall|j: int| #[trigger]
            self.joined_in(chat_id, user_id, j) ==> self.entries[j].message.id
                <= self.entries[i].message.id
    }

    /// The position of the session with the highest message number among those
    /// of the conversation in which the user takes part.
    pub open spec fn newest_joined(self, chat_id: i64, user_id: i64) -> int {
        choose|i: int| self.is_newest_joined(chat_id, user_id, i)
    }
}

/// The keys of those of `entries` that belong to conversation `chat_id`, in
/// the order of `entries`.
pub open spec fn keys_in_chat(entries: Seq<Session>, chat_id: i64) -> Seq<CacheKey>
    decreases entries.len(),
{
    if entries.len() == 0 {
        Seq::<CacheKey>::empty()
    } else if entries.last().message.chat_id == chat_id {
        keys_in_chat(entries.drop_last(), chat_id).push(entries.last().key())
    } else {
        keys_in_chat(entries.drop_last(), chat_id)
    }
}

/// In a well-formed registry a key is registered at one position only.
pub proof fn lemma_index_unique(v: StateView, key: CacheKey, i: int)
    requires
        v.wf(),
        v.at(key, i),
    ensures
        v.has(key),
        v.index_of(key) == i,
{
    let c = v.index_of(key);
    assert(v.at(key, c));
    if c < i {
        assert(v.entries[c].key() != v.entries[i].key());
    } else if i < c {
        assert(v.entries[i].key() != v.entries[c].key());
    }
}

/// The first of the earliest deadlines is determined by the sequence.
pub proof fn lemma_earliest_unique(v: StateView, i: int)
    requires
        v.is_earliest(i),
    ensures
        v.earliest() == i,
{
    let c = v.earliest();
    assert(v.is_earliest(c));
    if c < i {
        assert(v.expirations[i].deadline < v.expirations[c].deadline);
        assert(v.expirations[c].deadline <= v.expirations[i].deadline);
    } else if i < c {
        assert(v.expirations[c].deadline < v.expirations[i].deadline);
        assert(v.expirations[i].deadline <= v.expirations[c].deadline);
    }
}

/// Adding a well-formed session under a key that is not registered keeps the
/// registry well formed.
pub proof fn lemma_pushed_wf(v: StateView, session: Session, deadline: u64)
    requires
        v.wf(),
        session.wf(),
        !v.has(session.key()),
    ensures
        v.pushed(session, deadline).wf(),
{
    let w = v.pushed(session, deadline);
    assert forall|i: int, j: int| 0 <= i < j < w.entries.len() implies (
    #[trigger] w.entries[i]).key() != (#[trigger] w.entries[j]).key() by {
        if j == v.entries.len() {
            assert(!v.at(session.key(), i));
        } else {
            assert(v.entries[i].key() != v.entries[j].key());
        }
    }
}

/// Taking a session and its deadline out keeps the registry well formed, and
/// its key is registered no more.
pub proof fn lemma_without_wf(v: StateView, i: int)
    requires
        v.wf(),
        0 <= i < v.entries.len(),
    ensures
        v.without(i).wf(),
        !v.without(i).has(v.entries[i].key()),
        !v.without(i).has_deadline(v.entries[i].key()),
{
    let w = v.without(i);
    assert forall|a: int| 0 <= a < w.entries.len() implies (#[trigger] w.entries[a]).wf()
        && w.expirations[a].key == w.entries[a].key() by {
        let b = if a < i { a } else { a + 1 };
        assert(w.entries[a] == v.entries[b]);
        assert(w.expirations[a] == v.expirations[b]);
    }
    assert forall|a: int, b: int| 0 <= a < b < w.entries.len() implies (
    #[trigger] w.entries[a]).key() != (#[trigger] w.entries[b]).key() by {
        let a2 = if a < i { a } else { a + 1 };
        let b2 = if b < i { b } else { b + 1 };
        assert(w.entries[a] == v.entries[a2]);
        assert(w.entries[b] == v.entries[b2]);
        assert(v.entries[a2].key() != v.entries[b2].key());
    }
    assert forall|a: int| !w.at(v.entries[i].key(), a) by {
        if 0 <= a < w.entries.len() {
            let a2 = if a < i { a } else { a + 1 };
            assert(w.entries[a] == v.entries[a2]);
            if a2 < i {
                assert(v.entries[a2].key() != v.entries[i].key());
            } else {
                assert(v.entries[i].key() != v.entries[a2].key());
            }
        }
    }
    assert forall|a: int| 0 <= a < w.expirations.len() implies (#[trigger] w.expirations[a]).key
        != v.entries[i].key() by {
        assert(w.expirations[a].key == w.entries[a].key());
        assert(!w.at(v.entries[i].key(), a));
    }
}

/// Of the waiting sessions of a conversation, one only has the highest message
/// number.
pub proof fn lemma_newest_waiting_unique(v: StateView, chat_id: i64, i: int)
    requires
        v.wf(),
        v.is_newest_waiting(chat_id, i),
    ensures
        v.has_waiting(chat_id),
        v.newest_waiting(chat_id) == i,
{
    assert(v.waiting_in(chat_id, i));
    let c = v.newest_waiting(chat_id);
    assert(v.is_newest_waiting(chat_id, c));
    assert(v.waiting_in(chat_id, c));
    assert(v.entries[c].key() == v.entries[i].key());
    if c < i {
        assert(v.entries[c].key() != v.entries[i].key());
    } else if i < c {
        assert(v.entries[i].key() != v.entries[c].key());
    }
}

/// Of the sessions of a conversation in which a user takes part, one only has
/// the highest message number.
pub proof fn lemma_newest_joined_unique(v: StateView, chat_id: i64, user_id: i64, i: int)
    requires
        v.wf(),
        v.is_newest_joined(chat_id, user_id, i),
    ensures
        v.has_joined(chat_id, user_id),
        v.newest_joined(chat_id, user_id) == i,
{
    assert(v.joined_in(chat_id, user_id, i));
    let c = v.newest_joined(chat_id, user_id);
    assert(v.is_newest_joined(chat_id, user_id, c));
    assert(v.joined_in(chat_id, user_id, c));
    assert(v.entries[c].key() == v.entries[i].key());
    if c < i {
        assert(v.entries[c].key() != v.entries[i].key());
    } else if i < c {
        assert(v.entries[i].key() != v.entries[c].key());
    }
}

/// Replacing one session by a well-formed one with the same message keeps the
/// registry well formed.
pub proof fn lemma_changed_wf(v: StateView, w: StateView, i: int)
    requires
        v.wf(),
        0 <= i < v.entries.len(),
        v.changed_at(w, i),
        w.entries[i].wf(),
        w.entries[i].message == v.entries[i].message,
    ensures
        w.wf(),
{
    assert forall|a: int| 0 <= a < w.entries.len() implies (#[trigger] w.entries[a]).wf()
        && w.expirations[a].key == w.entries[a].key() by {
        assert(v.entries[a].wf());
        if a != i {
            assert(w.entries[a] == v.entries[a]);
        }
    }
    assert forall|a: int, b: int| 0 <= a < b < w.entries.len() implies (
    #[trigger] w.entries[a]).key() != (#[trigger] w.entries[b]).key() by {
        assert(v.entries[a].key() != v.entries[b].key());
        assert(w.entries[a].key() == v.entries[a].key());
        assert(w.entries[b].key() == v.entries[b].key());
    }
}

/// In a well-formed registry the sessions and the pending deadlines match one
/// to one: a key is registered exactly if a deadline is pending for it, and
/// then one session and one deadline bear it.
pub proof fn lemma_sessions_match_deadlines(v: StateView, key: CacheKey)
    requires
        v.wf(),
    ensures
        v.has(key) <==> v.has_deadline(key),
        forall|i: int, j: int|
            0 <= i < v.expirations.len() && 0 <= j < v.expirations.len() && (
            #[trigger] v.expirations[i]).key == key && (#[trigger] v.expirations[j]).key == key
                ==> i == j,
        forall|i: int, j: int| #[trigger] v.at(key, i) && #[trigger] v.at(key, j) ==> i == j,
{
    if v.has(key) {
        let i = v.index_of(key);
        assert(v.at(key, i));
        assert(v.entries[i].wf());
        assert(v.expirations[i].key == key);
    }
    if v.has_deadline(key) {
        let i = choose|i: int|
            0 <= i < v.expirations.len() && (#[trigger] v.expirations[i]).key == key;
        assert(v.entries[i].wf());
        assert(v.at(key, i));
    }
    assert forall|i: int, j: int| #[trigger] v.at(key, i) && #[trigger] v.at(key, j) implies i
        == j by {
        lemma_index_unique(v, key, i);
        lemma_index_unique(v, key, j);
    }
    assert forall|i: int, j: int|
        0 <= i < v.expirations.len() && 0 <= j < v.expirations.len() && (
        #[trigger] v.expirations[i]).key == key && (#[trigger] v.expirations[j]).key
            == key implies i == j by {
        assert(v.entries[i].wf());
        assert(v.entries[j].wf());
        assert(v.at(key, i));
        assert(v.at(key, j));
    }
}

/// No registered session is without participants: its owner is one of them.
pub proof fn lemma_sessions_have_participants(v: StateView, i: int)
    requires
        v.wf(),
        0 <= i < v.entries.len(),
    ensures
        v.entries[i].participants@.len() > 0,
        has_user(v.entries[i].participants@, v.entries[i].creator),
{
    assert(v.entries[i].wf());
    let c = user_index(v.entries[i].participants@, v.entries[i].creator);
    assert(user_at(v.entries[i].participants@, v.entries[i].creator, c));
}

/// When a participant leaves, the session either goes on with one participant
/// fewer, one of whom owns it, or, if the participant was the last, is gone
/// from the registry together with its deadline. Nothing in between can be
/// seen: the registry is well formed afterwards.
pub proof fn lemma_leave_keeps_or_deletes(
    before: StateView,
    after: StateView,
    i: int,
    user_id: i64,
    outcome: LeaveOutcome,
)
    requires
        before.wf(),
        0 <= i < before.entries.len(),
        has_user(before.entries[i].participants@, user_id),
        before.after_leave(after, i, user_id, outcome),
    ensures
        after.wf(),
        before.entries[i].participants@.len() == 1 ==> outcome is Deleted && !after.has(
            before.entries[i].key(),
        ) && !after.has_deadline(before.entries[i].key()) && after.entries.len()
            == before.entries.len() - 1,
        before.entries[i].participants@.len() != 1 ==> outcome is Left && after.at(
            before.entries[i].key(),
            i,
        ) && after.entries[i].participants@.len() == before.entries[i].participants@.len() - 1
            && after.entries[i].participants@.len() > 0 && !has_user(
            after.entries[i].participants@,
            user_id,
        ) && has_user(after.entries[i].participants@, after.entries[i].creator),
{
    assert(before.entries[i].wf());
    lemma_sessions_have_participants(before, i);
    if before.entries[i].participants@.len() == 1 {
        lemma_without_wf(before, i);
    } else {
        lemma_left_wf(before.entries[i], after.entries[i], user_id);
        lemma_changed_wf(before, after, i);
    }
}

/// Where some session of a conversation waits, one of them has the highest
/// message number.
pub proof fn lemma_newest_waiting_exists(v: StateView, chat_id: i64)
    requires
        v.has_waiting(chat_id),
    ensures
        v.is_newest_waiting(chat_id, v.newest_waiting(chat_id)),
{
    let w = choose|i: int| v.waiting_in(chat_id, i);
    let b = lemma_newest_waiting_below(v, chat_id, v.entries.len() as int, w);
    assert(v.is_newest_waiting(chat_id, b));
}

/// Among the first `n` sessions, of which the one at `w` waits in the
/// conversation, the position of a waiting one with the highest message number.
proof fn lemma_newest_waiting_below(v: StateView, chat_id: i64, n: int, w: int) -> (b: int)
    requires
        0 <= w < n <= v.entries.len(),
        v.waiting_in(chat_id, w),
    ensures
        0 <= b < n,
        v.waiting_in(chat_id, b),
        forall|j: int|
            0 <= j < n && #[trigger] v.waiting_in(chat_id, j) ==> v.entries[j].message.id
                <= v.entries[b].message.id,
    decreases n,
{
    if w == n - 1 {
        if exists|k: int| 0 <= k < n - 1 && v.waiting_in(chat_id, k) {
            let k = choose|k: int| 0 <= k < n - 1 && v.waiting_in(chat_id, k);
            let b0 = lemma_newest_waiting_below(v, chat_id, n - 1, k);
            if v.entries[b0].message.id < v.entries[w].message.id {
                w
            } else {
                b0
            }
        } else {
            w
        }
    } else {
        let b0 = lemma_newest_waiting_below(v, chat_id, n - 1, w);
        if v.waiting_in(chat_id, n - 1) && v.entries[b0].message.id < v.entries[n
            - 1].message.id {
            n - 1
        } else {
            b0
        }
    }
}

/// Where a user takes part in some session of a conversation, one of those
/// sessions has the highest message number.
pub proof fn lemma_newest_joined_exists(v: StateView, chat_id: i64, user_id: i64)
    requires
        v.has_joined(chat_id, user_id),
    ensures
        v.is_newest_joined(chat_id, user_id, v.newest_joined(chat_id, user_id)),
{
    let w = choose|i: int| v.joined_in(chat_id, user_id, i);
    let b = lemma_newest_joined_below(v, chat_id, user_id, v.entries.len() as int, w);
    assert(v.is_newest_joined(chat_id, user_id, b));
}

/// Among the first `n` sessions, of which the one at `w` is one of the
/// conversation that the user takes part in, the position of such a one with
/// the highest message number.
proof fn lemma_newest_joined_below(v: StateView, chat_id: i64, user_id: i64, n: int, w: int) -> (b:
    int)
    requires
        0 <= w < n <= v.entries.len(),
        v.joined_in(chat_id, user_id, w),
    ensures
        0 <= b < n,
        v.joined_in(chat_id, user_id, b),
        forall|j: int|
            0 <= j < n && #[trigger] v.joined_in(chat_id, user_id, j)
                ==> v.entries[j].message.id <= v.entries[b].message.id,
    decreases n,
{
    if w == n - 1 {
        if exists|k: int| 0 <= k < n - 1 && v.joined_in(chat_id, user_id, k) {
            let k = choose|k: int| 0 <= k < n - 1 && v.joined_in(chat_id, user_id, k);
            let b0 = lemma_newest_joined_below(v, chat_id, user_id, n - 1, k);
            if v.entries[b0].message.id < v.entries[w].message.id {
                w
            } else {
                b0
            }
        } else {
            w
        }
    } else {
        let b0 = lemma_newest_joined_below(v, chat_id, user_id, n - 1, w);
        if v.joined_in(chat_id, user_id, n - 1) && v.entries[b0].message.id < v.entries[n
            - 1].message.id {
            n - 1
        } else {
            b0
        }
    }
}

/// A user who has joined the newest waiting session of a conversation cannot
/// join it again: that session is still the newest waiting one, and the user
/// takes part in it, so that a second request is refused with `AlreadyJoined`.
pub proof fn lemma_join_twice(before: StateView, after: StateView, chat_id: i64, user: User)
    requires
        before.wf(),
        before.join_refusal(chat_id, user.id) is None,
        before.after_join(after, before.newest_waiting(chat_id), user),
    ensures
        after.wf(),
        after.newest_waiting(chat_id) == before.newest_waiting(chat_id),
        after.join_refusal(chat_id, user.id) == Some(StoreError::AlreadyJoined),
{
    lemma_newest_waiting_exists(before, chat_id);
    let i = before.newest_waiting(chat_id);
    assert(before.waiting_in(chat_id, i));
    assert(before.entries[i].wf());
    lemma_joined_wf(before.entries[i], after.entries[i], user);
    lemma_changed_wf(before, after, i);
    assert(after.waiting_in(chat_id, i));
    assert forall|j: int| #[trigger]
        after.waiting_in(chat_id, j) implies after.entries[j].message.id
        <= after.entries[i].message.id by {
        if j != i {
            assert(after.entries[j] == before.entries[j]);
        }
        assert(before.waiting_in(chat_id, j));
    }
    lemma_newest_waiting_unique(after, chat_id, i);
}

} // verus!
