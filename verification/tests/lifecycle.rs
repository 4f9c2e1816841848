use chaostomato::notice::Keyboard;
use chaostomato::periodic::{poll_for_expired_entries, rearm, Step};
use chaostomato::session::{ChatKind, Message, Session, User};
use chaostomato::session_state::SessionState;
use chaostomato::state::{CacheKey, LeaveOutcome, State, StoreError};
use chaostomato::time::{BREAK_MILLIS, POMODORO_MILLIS};

fn user(id: i64, name: &str) -> User {
    User { id, first_name: format!("first{}", id), username: Some(name.to_string()) }
}

fn message(chat_id: i64, id: u32, chat_kind: ChatKind) -> Message {
    Message { id, chat_id, chat_kind, text: Some("A new session!\n\nSubscribers:".to_string()) }
}

fn group_session(state: &mut State, chat_id: i64, id: u32, creator: User, now: u64, slot: u64) {
    let session =
        Session::pomodoro_at(message(chat_id, id, ChatKind::Group), creator, None, None, now, slot)
            .unwrap();
    assert_eq!(state.add_session_to_queue(session), Ok(()));
}

#[test]
fn work_session_runs_through_all_phases() {
    let mut state = State::new();
    let key = CacheKey::new(-100, 7);
    group_session(&mut state, -100, 7, user(1, "ann"), 1_000, 121_000);
    assert_eq!(state.len(), 1);
    assert_eq!(state.deadline(&key), Some(121_000));
    assert_eq!(state.session(&key).unwrap().state, SessionState::PomodoroWaiting);
    assert_eq!(state.session(&key).unwrap().duration, POMODORO_MILLIS);

    // Nothing is due before the start time.
    assert!(poll_for_expired_entries(&mut state, 120_999).is_none());
    assert_eq!(state.len(), 1);

    let due = poll_for_expired_entries(&mut state, 121_500).unwrap();
    assert_eq!(due.step, Step::StartPomodoro);
    assert!(state.session(&key).is_none());
    assert_eq!(state.deadline(&key), None);
    let notice = due.notice.unwrap();
    assert_eq!(notice.text, " @ann\n\nSession has started!");
    assert_eq!(notice.delete, Some(7));
    assert!(notice.replaces_message);
    assert_eq!(rearm(&mut state, due.session, 121_500), Ok(true));
    assert_eq!(state.session(&key).unwrap().state, SessionState::PomodoroRunning);
    assert_eq!(state.deadline(&key), Some(121_500 + 1_500_000));

    assert!(poll_for_expired_entries(&mut state, 1_621_499).is_none());
    let due = poll_for_expired_entries(&mut state, 1_621_500).unwrap();
    assert_eq!(due.step, Step::EndPomodoro);
    let notice = due.notice.unwrap();
    assert_eq!(notice.text, " @ann\n\nSession is over! Now take a short, 5 minute break");
    assert_eq!(notice.delete, None);
    assert_eq!(rearm(&mut state, due.session, 1_621_500), Ok(true));
    assert_eq!(state.session(&key).unwrap().state, SessionState::BreakRunning);
    assert_eq!(state.session(&key).unwrap().duration, BREAK_MILLIS);
    assert_eq!(state.session(&key).unwrap().duration, 300_000);
    assert_eq!(state.deadline(&key), Some(1_621_500 + 300_000));

    let due = poll_for_expired_entries(&mut state, 1_921_500).unwrap();
    assert_eq!(due.step, Step::EndBreak);
    let notice = due.notice.unwrap();
    assert_eq!(notice.text, " @ann\n\nBreak is over!");
    assert_eq!(notice.keyboard, Keyboard::Plain);
    assert_eq!(rearm(&mut state, due.session, 1_921_500), Ok(false));
    assert!(state.session(&key).is_none());
    assert_eq!(state.deadline(&key), None);
    assert_eq!(state.len(), 0);
    assert_eq!(state.next_deadline(), None);
}

#[test]
fn owner_leaves_then_last_participant_leaves() {
    let mut state = State::new();
    let key = CacheKey::new(-5, 40);
    group_session(&mut state, -5, 40, user(1, "ann"), 0, 60_000);
    assert_eq!(state.join_latest_session(-5, user(2, "bob")), Ok(key));
    assert_eq!(state.join_latest_session(-5, user(3, "cy")), Ok(key));
    assert_eq!(state.session(&key).unwrap().participants.len(), 3);

    let outcome = state.leave_latest_session(-5, 1).unwrap();
    assert_eq!(outcome, LeaveOutcome::Left { key, owner: 2 });
    let session = state.session(&key).unwrap();
    assert_eq!(session.creator, 2);
    assert_eq!(session.participants.len(), 2);
    assert!(session.participants.iter().all(|u| u.id != 1));
    assert_eq!(state.deadline(&key), Some(60_000));

    assert_eq!(state.leave_latest_session(-5, 3), Ok(LeaveOutcome::Left { key, owner: 2 }));
    assert_eq!(state.leave_latest_session(-5, 2), Ok(LeaveOutcome::Deleted { key }));
    assert!(state.session(&key).is_none());
    assert_eq!(state.deadline(&key), None);
    assert_eq!(state.next_deadline(), None);
    assert!(poll_for_expired_entries(&mut state, u64::MAX).is_none());
}

#[test]
fn only_the_owner_starts_a_session_early() {
    let mut state = State::new();
    let key = CacheKey::new(-5, 40);
    group_session(&mut state, -5, 40, user(1, "ann"), 0, 60_000);
    assert_eq!(state.join_latest_session(-5, user(2, "bob")), Ok(key));

    assert_eq!(state.start_session_now(&key, 2).unwrap_err(), StoreError::NotOwner);
    assert_eq!(state.session(&key).unwrap().state, SessionState::PomodoroWaiting);
    assert_eq!(state.deadline(&key), Some(60_000));

    let session = state.start_session_now(&key, 1).unwrap();
    assert!(state.session(&key).is_none());
    let notice = session.notify_participants_on_start();
    assert_eq!(notice.text, " @ann @bob\n\nSession has started!");
    assert_eq!(state.start_session(session, 10_000), Ok(()));
    assert_eq!(state.session(&key).unwrap().state, SessionState::PomodoroRunning);
    // The work runs for its full duration from the early start.
    assert_eq!(state.deadline(&key), Some(10_000 + 1_500_000));
    assert_eq!(state.next_deadline(), Some(1_510_000));

    // A running session cannot be started again.
    assert_eq!(state.start_session_now(&key, 1).unwrap_err(), StoreError::WrongPhase);
    assert_eq!(state.start_session_now(&CacheKey::new(-5, 41), 1).unwrap_err(), StoreError::NotFound);
}

#[test]
fn early_start_under_a_new_message() {
    let mut state = State::new();
    let key = CacheKey::new(-5, 40);
    group_session(&mut state, -5, 40, user(1, "ann"), 0, 60_000);
    let mut session = state.start_session_now(&key, 1).unwrap();
    session.set_message(message(-5, 44, ChatKind::Group));
    assert_eq!(state.start_session(session, 500), Ok(()));
    assert!(state.session(&key).is_none());
    let moved = CacheKey::new(-5, 44);
    assert_eq!(state.session(&moved).unwrap().state, SessionState::PomodoroRunning);
    assert_eq!(state.deadline(&moved), Some(1_500_500));
}

#[test]
fn break_session_takes_one_step_to_begin() {
    let mut state = State::new();
    let key = CacheKey::new(9, 3);
    assert_eq!(state.new_break(message(9, 3, ChatKind::Private), user(4, "dee"), None, None, 777), Ok(()));
    let session = state.session(&key).unwrap();
    assert_eq!(session.state, SessionState::BreakWaiting);
    assert_eq!(session.start_time, 777);
    assert_eq!(session.creation_time, 777);
    assert_eq!(session.duration, 300_000);
    assert_eq!(state.deadline(&key), Some(777));

    let due = poll_for_expired_entries(&mut state, 777).unwrap();
    assert_eq!(due.step, Step::StartBreak);
    assert!(due.notice.is_none());
    assert_eq!(rearm(&mut state, due.session, 1_777), Ok(true));
    assert_eq!(state.session(&key).unwrap().state, SessionState::BreakRunning);
    assert_eq!(state.deadline(&key), Some(301_777));

    let due = poll_for_expired_entries(&mut state, 301_777).unwrap();
    assert_eq!(due.step, Step::EndBreak);
    let notice = due.notice.unwrap();
    assert_eq!(notice.text, "Break is over! Do you want to continue?");
    assert_eq!(notice.keyboard, Keyboard::AskToContinue);
    assert_eq!(notice.delete, Some(3));
    assert!(!notice.replaces_message);
    assert_eq!(rearm(&mut state, due.session, 301_777), Ok(false));
    assert_eq!(state.len(), 0);
}

#[test]
fn private_work_session_starts_in_silence() {
    let mut state = State::new();
    let key = CacheKey::new(9, 3);
    let session =
        Session::pomodoro_at(message(9, 3, ChatKind::Private), user(4, "dee"), None, None, 50, 99_999)
            .unwrap();
    assert_eq!(session.start_time, 50);
    assert_eq!(state.add_session_to_queue(session), Ok(()));
    let due = poll_for_expired_entries(&mut state, 50).unwrap();
    assert_eq!(due.step, Step::StartPomodoro);
    assert!(due.notice.is_none());
    assert_eq!(rearm(&mut state, due.session, 60), Ok(true));
    assert_eq!(state.deadline(&key), Some(1_500_060));
    let due = poll_for_expired_entries(&mut state, 1_500_060).unwrap();
    let notice = due.notice.unwrap();
    assert_eq!(notice.delete, Some(3));
    assert!(notice.replaces_message);
}

#[test]
fn earliest_deadline_is_served_first() {
    let mut state = State::new();
    group_session(&mut state, -1, 1, user(1, "ann"), 0, 300_000);
    group_session(&mut state, -2, 1, user(1, "ann"), 0, 120_000);
    group_session(&mut state, -3, 1, user(1, "ann"), 0, 120_000);
    assert_eq!(state.next_deadline(), Some(120_000));
    let first = poll_for_expired_entries(&mut state, 400_000).unwrap();
    assert_eq!(first.session.cache_key(), CacheKey::new(-2, 1));
    let second = poll_for_expired_entries(&mut state, 400_000).unwrap();
    assert_eq!(second.session.cache_key(), CacheKey::new(-3, 1));
    let third = poll_for_expired_entries(&mut state, 400_000).unwrap();
    assert_eq!(third.session.cache_key(), CacheKey::new(-1, 1));
    assert!(poll_for_expired_entries(&mut state, 400_000).is_none());
}

#[test]
fn rearm_refuses_a_taken_key() {
    let mut state = State::new();
    group_session(&mut state, -1, 1, user(1, "ann"), 0, 10);
    let mut due = poll_for_expired_entries(&mut state, 10).unwrap();
    group_session(&mut state, -1, 2, user(2, "bob"), 0, 10_000);
    due.session.set_message(message(-1, 2, ChatKind::Group));
    assert_eq!(rearm(&mut state, due.session, 10), Err(StoreError::AlreadyExists));
    assert_eq!(state.len(), 1);
    assert_eq!(state.session(&CacheKey::new(-1, 2)).unwrap().creator, 2);
}
