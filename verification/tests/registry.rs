use chaostomato::session::{ChatKind, Message, Session, User};
use chaostomato::session_state::SessionState;
use chaostomato::state::{CacheKey, LeaveOutcome, State, StoreError};
use chaostomato::time::{instant_at_minute, millis_to_next_slot, BREAK_MILLIS, MINUTE_MILLIS, POMODORO_MILLIS};

fn person(id: i64, name: &str) -> User {
    User { id, first_name: name.to_string(), username: None }
}

fn anchor(chat_id: i64, id: u32, chat_kind: ChatKind) -> Message {
    Message { id, chat_id, chat_kind, text: None }
}

fn waiting(chat_id: i64, id: u32, creator: User) -> Session {
    Session::pomodoro_at(anchor(chat_id, id, ChatKind::Supergroup), creator, None, None, 0, 1_000)
        .unwrap()
}

#[test]
fn register_twice_is_refused() {
    let mut state = State::new();
    assert_eq!(state.add_session_to_queue(waiting(1, 1, person(1, "a"))), Ok(()));
    assert_eq!(
        state.add_session_to_queue(waiting(1, 1, person(2, "b"))),
        Err(StoreError::AlreadyExists)
    );
    assert_eq!(state.len(), 1);
    assert_eq!(state.session(&CacheKey::new(1, 1)).unwrap().creator, 1);
    assert_eq!(state.new_break(anchor(1, 1, ChatKind::Group), person(3, "c"), None, None, 5), Err(StoreError::AlreadyExists));
    assert_eq!(
        state.new_pomodoro(anchor(1, 1, ChatKind::Channel), person(3, "c"), None, None, 5),
        Err(StoreError::AlreadyExists)
    );
    assert_eq!(state.len(), 1);
}

#[test]
fn new_pomodoro_in_a_group_starts_at_the_next_slot() {
    let mut state = State::new();
    let now = 10_000_000;
    assert_eq!(state.new_pomodoro(anchor(1, 1, ChatKind::Group), person(1, "a"), None, None, now), Ok(()));
    let key = CacheKey::new(1, 1);
    let session = state.session(&key).unwrap();
    assert_eq!(session.state, SessionState::PomodoroWaiting);
    assert_eq!(session.duration, 1_500_000);
    assert_eq!(session.creation_time, now);
    let wait = session.start_time - now;
    assert!(wait >= 60_000 && wait <= 300_000);
    assert_eq!(wait % 60_000, 0);
    assert_eq!(state.deadline(&key), Some(session.start_time));
}

#[test]
fn new_pomodoro_takes_given_start_and_duration() {
    let mut state = State::new();
    assert_eq!(
        state.new_pomodoro(anchor(1, 1, ChatKind::Private), person(1, "a"), Some(42), Some(9_000), 7),
        Ok(())
    );
    let session = state.session(&CacheKey::new(1, 1)).unwrap();
    assert_eq!(session.start_time, 42);
    assert_eq!(session.duration, 9_000);
    assert_eq!(session.creation_time, 7);
    assert_eq!(session.participants.len(), 1);
    assert_eq!(session.participants[0].id, 1);
    assert_eq!(session.creator, 1);
}

#[test]
fn new_pomodoro_in_a_private_chat_starts_at_once() {
    let mut state = State::new();
    assert_eq!(state.new_pomodoro(anchor(1, 1, ChatKind::Private), person(1, "a"), None, None, 7), Ok(()));
    assert_eq!(state.deadline(&CacheKey::new(1, 1)), Some(7));
}

#[test]
fn channel_cannot_hold_a_work_session() {
    let mut state = State::new();
    assert_eq!(
        state.new_pomodoro(anchor(1, 1, ChatKind::Channel), person(1, "a"), None, None, 7),
        Err(StoreError::UnsupportedChat)
    );
    assert_eq!(state.len(), 0);
    assert_eq!(
        Session::pomodoro_at(anchor(1, 1, ChatKind::Channel), person(1, "a"), Some(1), Some(1), 7, 8)
            .unwrap_err(),
        StoreError::UnsupportedChat
    );
}

#[test]
fn join_picks_the_newest_waiting_session() {
    let mut state = State::new();
    state.add_session_to_queue(waiting(1, 10, person(1, "a"))).unwrap();
    state.add_session_to_queue(waiting(1, 30, person(1, "a"))).unwrap();
    state.add_session_to_queue(waiting(1, 20, person(1, "a"))).unwrap();
    state.add_session_to_queue(waiting(2, 99, person(1, "a"))).unwrap();
    assert_eq!(state.newest_session_in_chat(1), Some(CacheKey::new(1, 30)));
    assert_eq!(state.join_latest_session(1, person(5, "e")), Ok(CacheKey::new(1, 30)));
    assert_eq!(state.session(&CacheKey::new(1, 30)).unwrap().participants.len(), 2);
    assert_eq!(state.session(&CacheKey::new(1, 30)).unwrap().participants[1].id, 5);
    assert_eq!(state.session(&CacheKey::new(1, 20)).unwrap().participants.len(), 1);
    assert_eq!(state.session(&CacheKey::new(2, 99)).unwrap().participants.len(), 1);

    // Once the newest has begun, the next one down is joined.
    let begun = state.start_session_now(&CacheKey::new(1, 30), 1).unwrap();
    state.start_session(begun, 0).unwrap();
    assert_eq!(state.newest_session_in_chat(1), Some(CacheKey::new(1, 20)));
    assert_eq!(state.join_latest_session(1, person(5, "e")), Ok(CacheKey::new(1, 20)));
}

#[test]
fn join_twice_is_refused() {
    let mut state = State::new();
    state.add_session_to_queue(waiting(1, 10, person(1, "a"))).unwrap();
    assert_eq!(state.join_latest_session(1, person(1, "a")), Err(StoreError::AlreadyJoined));
    assert_eq!(state.join_latest_session(1, person(2, "b")), Ok(CacheKey::new(1, 10)));
    assert_eq!(state.join_latest_session(1, person(2, "b")), Err(StoreError::AlreadyJoined));
    assert_eq!(state.session(&CacheKey::new(1, 10)).unwrap().participants.len(), 2);
}

#[test]
fn join_needs_a_waiting_session() {
    let mut state = State::new();
    assert_eq!(state.join_latest_session(1, person(2, "b")), Err(StoreError::NoEligibleSession));
    state.add_session_to_queue(waiting(1, 10, person(1, "a"))).unwrap();
    assert_eq!(state.join_latest_session(2, person(2, "b")), Err(StoreError::NoEligibleSession));
    let begun = state.start_session_now(&CacheKey::new(1, 10), 1).unwrap();
    state.start_session(begun, 0).unwrap();
    assert_eq!(state.join_latest_session(1, person(2, "b")), Err(StoreError::NoEligibleSession));
    assert_eq!(state.newest_session_in_chat(1), None);
    state.new_break(anchor(1, 11, ChatKind::Group), person(3, "c"), None, None, 0).unwrap();
    assert_eq!(state.join_latest_session(1, person(2, "b")), Err(StoreError::NoEligibleSession));
}

#[test]
fn add_participant_by_key() {
    let mut state = State::new();
    let key = CacheKey::new(1, 10);
    assert_eq!(state.add_participant(&key, person(2, "b")), Err(StoreError::NotFound));
    state.add_session_to_queue(waiting(1, 10, person(1, "a"))).unwrap();
    assert_eq!(state.add_participant(&key, person(2, "b")), Ok(()));
    assert_eq!(state.add_participant(&key, person(2, "b")), Err(StoreError::AlreadyJoined));
    assert_eq!(state.session(&key).unwrap().participants.len(), 2);
}

#[test]
fn leave_picks_the_newest_session_of_the_user() {
    let mut state = State::new();
    state.add_session_to_queue(waiting(1, 10, person(1, "a"))).unwrap();
    state.add_session_to_queue(waiting(1, 30, person(2, "b"))).unwrap();
    state.add_session_to_queue(waiting(1, 20, person(1, "a"))).unwrap();
    state.add_participant(&CacheKey::new(1, 20), person(7, "g")).unwrap();
    assert_eq!(state.leave_latest_session(1, 9), Err(StoreError::NotSubscribed));
    assert_eq!(state.leave_latest_session(2, 1), Err(StoreError::NotSubscribed));
    assert_eq!(
        state.leave_latest_session(1, 1),
        Ok(LeaveOutcome::Left { key: CacheKey::new(1, 20), owner: 7 })
    );
    assert_eq!(state.leave_latest_session(1, 1), Ok(LeaveOutcome::Deleted { key: CacheKey::new(1, 10) }));
    assert_eq!(state.len(), 2);
    assert_eq!(state.session_exists(&CacheKey::new(1, 10)), Err(StoreError::NotFound));
    assert_eq!(state.session_exists(&CacheKey::new(1, 20)), Ok(()));
}

#[test]
fn leave_reaches_a_running_session() {
    let mut state = State::new();
    let key = CacheKey::new(1, 10);
    state.add_session_to_queue(waiting(1, 10, person(1, "a"))).unwrap();
    state.add_participant(&key, person(2, "b")).unwrap();
    let begun = state.start_session_now(&key, 1).unwrap();
    state.start_session(begun, 0).unwrap();
    assert_eq!(state.leave_latest_session(1, 2), Ok(LeaveOutcome::Left { key, owner: 1 }));
    assert_eq!(state.leave_latest_session(1, 1), Ok(LeaveOutcome::Deleted { key }));
    assert_eq!(state.len(), 0);
}

#[test]
fn remove_participant_by_key() {
    let mut state = State::new();
    let key = CacheKey::new(1, 10);
    assert_eq!(state.remove_participant(&key, 1), Err(StoreError::NotFound));
    state.add_session_to_queue(waiting(1, 10, person(1, "a"))).unwrap();
    assert_eq!(state.remove_participant(&key, 2), Err(StoreError::NotSubscribed));
    state.add_participant(&key, person(2, "b")).unwrap();
    state.add_participant(&key, person(3, "c")).unwrap();
    assert_eq!(state.remove_participant(&key, 2), Ok(LeaveOutcome::Left { key, owner: 1 }));
    assert_eq!(state.remove_participant(&key, 1), Ok(LeaveOutcome::Left { key, owner: 3 }));
    assert_eq!(state.remove_participant(&key, 3), Ok(LeaveOutcome::Deleted { key }));
    assert_eq!(state.deadline(&key), None);
}

#[test]
fn ownership_is_checked_by_identity() {
    let mut state = State::new();
    let key = CacheKey::new(1, 10);
    assert_eq!(state.is_owner(&key, 1), Err(StoreError::NotFound));
    state.add_session_to_queue(waiting(1, 10, person(1, "a"))).unwrap();
    assert_eq!(state.is_owner(&key, 1), Ok(()));
    assert_eq!(state.is_owner(&key, 2), Err(StoreError::NotOwner));
}

#[test]
fn remove_session_discards_the_deadline() {
    let mut state = State::new();
    let key = CacheKey::new(1, 10);
    assert_eq!(state.remove_session_from_queue(&key), Err(StoreError::NotFound));
    state.add_session_to_queue(waiting(1, 10, person(1, "a"))).unwrap();
    state.add_session_to_queue(waiting(1, 11, person(1, "a"))).unwrap();
    assert_eq!(state.remove_session_from_queue(&key), Ok(()));
    assert_eq!(state.deadline(&key), None);
    assert_eq!(state.deadline(&CacheKey::new(1, 11)), Some(1_000));
    assert_eq!(state.len(), 1);
}

#[test]
fn transitions_refuse_the_wrong_phase() {
    let mut state = State::new();
    let mut session = waiting(1, 10, person(1, "a"));
    assert_eq!(state.start_break(session.clone(), 0), Err(StoreError::WrongPhase));
    session.convert_to_break();
    assert_eq!(session.state, SessionState::BreakRunning);
    assert_eq!(session.duration, 300_000);
    assert!(session.is_taking_a_break());
    assert!(!session.is_running() && !session.is_waiting() && !session.is_awaiting_break());
    assert_eq!(state.start_session(session.clone(), 0), Err(StoreError::WrongPhase));
    assert_eq!(state.start_break(session, 0), Err(StoreError::WrongPhase));
    assert_eq!(state.len(), 0);
    state.add_session_to_queue(waiting(1, 10, person(1, "a"))).unwrap();
    assert_eq!(state.start_session(waiting(1, 10, person(1, "a")), 0), Err(StoreError::AlreadyExists));
}

#[test]
fn phases_follow_in_order() {
    assert_eq!(SessionState::PomodoroWaiting.successor(), Some(SessionState::PomodoroRunning));
    assert_eq!(SessionState::PomodoroRunning.successor(), Some(SessionState::BreakRunning));
    assert_eq!(SessionState::BreakWaiting.successor(), Some(SessionState::BreakRunning));
    assert_eq!(SessionState::BreakRunning.successor(), None);
}

#[test]
fn slot_is_the_next_multiple_of_five_minutes() {
    assert_eq!(millis_to_next_slot(0), 300_000);
    assert_eq!(millis_to_next_slot(1), 240_000);
    assert_eq!(millis_to_next_slot(3), 120_000);
    assert_eq!(millis_to_next_slot(4), 60_000);
    assert_eq!(millis_to_next_slot(55), 300_000);
    assert_eq!(millis_to_next_slot(59), 60_000);
    assert_eq!(MINUTE_MILLIS, 60_000);
    assert_eq!(POMODORO_MILLIS, 25 * 60 * 1000);
    assert_eq!(BREAK_MILLIS, 5 * 60 * 1000);
}

#[test]
fn clock_slot_lies_within_five_minutes() {
    let slot = instant_at_minute(1_000);
    assert!(slot >= 61_000 && slot <= 301_000);
    assert_eq!((slot - 1_000) % 60_000, 0);
}

#[test]
fn names_fall_back_to_the_first_name() {
    let mut session = waiting(1, 10, person(1, "Ann"));
    session.participants.push(User { id: 2, first_name: "Bob".to_string(), username: Some("bobby".to_string()) });
    assert_eq!(session.string_of_subscribed_usernames(), " @Ann @bobby");
    assert_eq!(session.participants[1].name(), "bobby");
    assert_eq!(session.chat(), (1, ChatKind::Supergroup));
    assert_eq!(session.message().id, 10);
    assert_eq!(session.cache_key(), CacheKey::new(1, 10));
}

#[test]
fn sessions_of_a_chat_in_order_of_registration() {
    let mut state = State::new();
    state.add_session_to_queue(waiting(1, 10, person(1, "a"))).unwrap();
    state.add_session_to_queue(waiting(2, 11, person(1, "a"))).unwrap();
    state.add_session_to_queue(waiting(1, 5, person(1, "a"))).unwrap();
    assert_eq!(state.sessions_in_chat(1), vec![CacheKey::new(1, 10), CacheKey::new(1, 5)]);
    assert_eq!(state.sessions_in_chat(2), vec![CacheKey::new(2, 11)]);
    assert_eq!(state.sessions_in_chat(3), Vec::<CacheKey>::new());
}

#[test]
fn every_session_has_one_deadline() {
    let mut state = State::new();
    let keys = [CacheKey::new(1, 10), CacheKey::new(1, 11), CacheKey::new(2, 10)];
    for key in keys.iter() {
        assert!(state.session(key).is_none());
        assert!(state.deadline(key).is_none());
    }
    state.add_session_to_queue(waiting(1, 10, person(1, "a"))).unwrap();
    state.add_session_to_queue(waiting(1, 11, person(2, "b"))).unwrap();
    state.new_break(anchor(2, 10, ChatKind::Private), person(3, "c"), Some(77), None, 1).unwrap();
    for key in keys.iter() {
        assert_eq!(state.session(key).is_some(), state.deadline(key).is_some());
        assert_eq!(state.session(key).unwrap().cache_key(), *key);
        assert!(!state.session(key).unwrap().participants.is_empty());
    }
    assert_eq!(state.len(), 3);
    let begun = state.start_session_now(&keys[0], 1).unwrap();
    assert_eq!(state.len(), 2);
    assert_eq!(state.session(&keys[0]).is_some(), state.deadline(&keys[0]).is_some());
    assert!(state.deadline(&keys[0]).is_none());
    state.start_session(begun, 9).unwrap();
    state.leave_latest_session(1, 2).unwrap();
    state.remove_session_from_queue(&keys[2]).unwrap();
    assert_eq!(state.len(), 1);
    for key in keys.iter() {
        assert_eq!(state.session(key).is_some(), state.deadline(key).is_some());
    }
    assert_eq!(state.deadline(&keys[0]), Some(1_500_009));
}

#[test]
fn default_registry_is_empty() {
    let state = State::default();
    assert_eq!(state.len(), 0);
    assert_eq!(state.next_deadline(), None);
    assert_eq!(state.newest_session_in_chat(1), None);
}
