//! The list of participants at the end of a session's message.
//!
//! The message ends in the word `Subscribers:` and the names of those who take
//! part. When the participants change, everything from that word on is cut off
//! and written anew.

use vstd::prelude::*;
use vstd::string::*;
use crate::notice::Keyboard;
use crate::session::{display_name, Session, User};
use crate::state::{CacheKey, State};

verus! {

/// Whether `pat` stands in `text` at position `i`.
pub open spec fn occurs_at(text: Seq<char>, pat: Seq<char>, i: int) -> bool {
    0 <= i && i + pat.len() <= text.len() && text.subrange(i, i + pat.len()) == pat
}

/// Whether `i` is the first position at which `pat` stands in `text`.
pub open spec fn is_first(text: Seq<char>, pat: Seq<char>, i: int) -> bool {
    occurs_at(text, pat, i) && forall|j: int| 0 <= j < i ==> !occurs_at(text, pat, j)
}

/// Whether `pat` stands somewhere in `text`, and so has a first position
/// there.
pub open spec fn occurs(text: Seq<char>, pat: Seq<char>) -> bool {
    exists|i: int| is_first(text, pat, i)
}

/// The first position at which `pat` stands in `text`.
pub open spec fn first_occurrence(text: Seq<char>, pat: Seq<char>) -> int {
    choose|i: int| is_first(text, pat, i)
}

/// What is left of `text` when it is cut into pieces at every `pat`, the last
/// piece is thrown away and the others are put together again. The pieces are
/// found from left to right; nothing is left where `pat` does not occur.
pub open spec fn pieces_before_last(text: Seq<char>, pat: Seq<char>) -> Seq<char>
    decreases text.len(),
{
    if pat.len() > 0 && occurs(text, pat) {
        let i = first_occurrence(text, pat);
        text.take(i) + pieces_before_last(text.skip(i + pat.len()), pat)
    } else {
        Seq::<char>::empty()
    }
}

/// The text without its list of participants: what stands before the last
/// `Subscribers:`, with every earlier `Subscribers:` taken out; all of the
/// text where that word does not occur.
pub open spec fn header(text: Seq<char>) -> Seq<char> {
    if occurs(text, "Subscribers:"@) {
        pieces_before_last(text, "Subscribers:"@)
    } else {
        text
    }
}

/// The names of `users`, each preceded by an at sign, with one space between
/// them.
pub open spec fn roster(users: Seq<User>) -> Seq<char>
    decreases users.len(),
{
    if users.len() == 0 {
        Seq::<char>::empty()
    } else if users.len() == 1 {
        "@"@ + display_name(users[0])
    } else {
        roster(users.drop_last()) + " @"@ + display_name(users.last())
    }
}

/// `text` with its list of participants replaced by the names of `users`.
pub open spec fn with_roster(text: Seq<char>, users: Seq<User>) -> Seq<char> {
    header(text) + "Subscribers:\n"@ + roster(users)
}

/// A pattern has one first position in a text.
pub proof fn lemma_first_unique(text: Seq<char>, pat: Seq<char>, i: int)
    requires
        is_first(text, pat, i),
    ensures
        occurs(text, pat),
        first_occurrence(text, pat) == i,
{
    let c = first_occurrence(text, pat);
    assert(is_first(text, pat, c));
}

/// Whether `pat`, which has `m` characters, stands in `text` at position `i`.
fn matches_at(text: &str, pat: &str, i: usize, m: usize) -> (r: bool)
    requires
        m == pat@.len(),
        i + m <= text@.len() <= usize::MAX,
    ensures
        r == occurs_at(text@, pat@, i as int),
{
    let mut k: usize = 0;
    while k < m
        invariant
            k <= m,
            m == pat@.len(),
            i + m <= text@.len() <= usize::MAX,
            forall|j: int| 0 <= j < k ==> text@[i + j] == pat@[j],
        decreases m - k,
    {
        if text.get_char(i + k) != pat.get_char(k) {
            proof {
                assert(text@.subrange(i as int, i + m)[k as int] == text@[i + k]);
            }
            return false;
        }
        k += 1;
    }
    proof {
        assert(text@.subrange(i as int, i + m) =~= pat@);
    }
    true
}

/// The first position at which `pat` stands in `text`, if it stands there at
/// all. Positions count characters.
pub fn find_first(text: &str, pat: &str) -> (r: Option<usize>)
    ensures
        r is Some <==> occurs(text@, pat@),
        r matches Some(i) ==> is_first(text@, pat@, i as int) && first_occurrence(text@, pat@)
            == i,
{
    let n: usize = text.unicode_len();
    let m: usize = pat.unicode_len();
    if m == 0 {
        proof {
            assert(text@.subrange(0, 0) =~= pat@);
            lemma_first_unique(text@, pat@, 0);
        }
        return Some(0);
    }
    if n < m {
        assert forall|j: int| !is_first(text@, pat@, j) by {
            assert(!occurs_at(text@, pat@, j));
        }
        return None;
    }
    let mut i: usize = 0;
    while i <= n - m
        invariant
            n == text@.len(),
            m == pat@.len(),
            0 < m <= n,
            i <= n - m + 1,
            forall|j: int| 0 <= j < i ==> !occurs_at(text@, pat@, j),
        decreases n - m + 1 - i,
    {
        if matches_at(text, pat, i, m) {
            proof {
                lemma_first_unique(text@, pat@, i as int);
            }
            return Some(i);
        }
        i += 1;
    }
    assert forall|j: int| !is_first(text@, pat@, j) by {
        assert(!occurs_at(text@, pat@, j));
    }
    None
}

/// What is left of `text` when it is cut into pieces at every `pat`, the last
/// piece is thrown away and the others are put together again.
pub fn strip_last_piece(text: &str, pat: &str) -> (r: String)
    ensures
        r@ == pieces_before_last(text@, pat@),
{
    let mut out = String::new();
    let m: usize = pat.unicode_len();
    if m == 0 {
        return out;
    }
    let mut rest: &str = text;
    loop
        invariant
            m == pat@.len(),
            m > 0,
            pieces_before_last(text@, pat@) == out@ + pieces_before_last(rest@, pat@),
        decreases rest@.len(),
    {
        match find_first(rest, pat) {
            Some(i) => {
                let n: usize = rest.unicode_len();
                let ghost before = out@;
                let ghost whole = rest@;
                out.append(rest.substring_char(0, i));
                rest = rest.substring_char(i + m, n);
                proof {
                    assert(whole.subrange(0, i as int) =~= whole.take(i as int));
                    assert(whole.subrange(i + m, n as int) =~= whole.skip(i + m));
                    assert(before + (whole.take(i as int) + pieces_before_last(rest@, pat@)) =~= (
                    before + whole.take(i as int)) + pieces_before_last(rest@, pat@));
                }
            },
            None => {
                proof {
                    assert(out@ + Seq::<char>::empty() =~= out@);
                }
                return out;
            },
        }
    }
}

/// The names of `users`, each preceded by an at sign, with one space between
/// them.
pub fn roster_of(users: &Vec<User>) -> (r: String)
    ensures
        r@ == roster(users@),
{
    let mut text = String::new();
    let mut i: usize = 0;
    while i < users.len()
        invariant
            i <= users.len(),
            text@ == roster(users@.take(i as int)),
        decreases users.len() - i,
    {
        proof {
            let next = users@.take(i + 1);
            assert(next.drop_last() == users@.take(i as int));
            assert(next.last() == users@[i as int]);
            assert(next[0] == users@[0]);
        }
        let ghost before = text@;
        if i == 0 {
            text.append("@");
            assert(before + "@"@ =~= "@"@);
        } else {
            text.append(" @");
        }
        text.append(users[i].name().as_str());
        i += 1;
    }
    proof {
        assert(users@.take(i as int) == users@);
    }
    text
}

/// `text` with its list of participants replaced by the names of `users`.
pub fn rebuild(text: &str, users: &Vec<User>) -> (r: String)
    ensures
        r@ == with_roster(text@, users@),
{
    let mut out = match find_first(text, "Subscribers:") {
        Some(_) => strip_last_piece(text, "Subscribers:"),
        None => String::from_str(text),
    };
    out.append("Subscribers:\n");
    let names = roster_of(users);
    out.append(names.as_str());
    out
}

/// A change of the text of a message that was sent before.
#[derive(Clone, Debug)]
pub struct Edit {
    /// The conversation of the message.
    pub chat_id: i64,
    /// The message to change.
    pub message_id: u32,
    /// The new text.
    pub text: String,
    /// The buttons to show below the text.
    pub keyboard: Keyboard,
}

impl Session {
    /// Whether `edit` brings the session's message up to date: its text with
    /// the list of participants written anew, and in a group the button by
    /// which others join.
    pub open spec fn is_roster_edit(&self, edit: Edit) -> bool {
        &&& self.message.text matches Some(text) && edit.text@ == with_roster(
            text@,
            self.participants@,
        )
        &&& edit.chat_id == self.message.chat_id
        &&& edit.message_id == self.message.id
        &&& edit.keyboard == if self.message.chat_kind.is_shared() {
            Keyboard::Join
        } else {
            Keyboard::Plain
        }
    }

    /// The change that brings the session's message up to date with its
    /// participants; `None` if the message has no text.
    pub fn participants_text(&self) -> (r: Option<Edit>)
        ensures
            r is Some <==> self.message.text is Some,
            r matches Some(edit) ==> self.is_roster_edit(edit),
    {
        match &self.message.text {
            Some(text) => {
                let keyboard = if self.message.chat_kind.shared() {
                    Keyboard::Join
                } else {
                    Keyboard::Plain
                };
                Some(
                    Edit {
                        chat_id: self.message.chat_id,
                        message_id: self.message.id,
                        text: rebuild(text.as_str(), &self.participants),
                        keyboard,
                    },
                )
            },
            None => None,
        }
    }
}

impl State {
    /// The change that brings the message of the session registered under
    /// `key` up to date with its participants; `None` if there is no such
    /// session or its message has no text.
    pub fn update_participants_text(&self, key: &CacheKey) -> (r: Option<Edit>)
        requires
            self@.wf(),
        ensures
            r is Some <==> self@.has(*key) && self@.session_of(*key).message.text is Some,
            r matches Some(edit) ==> self@.session_of(*key).is_roster_edit(edit),
    {
        match self.session(key) {
            Some(session) => session.participants_text(),
            None => None,
        }
    }
}

} // verus!
